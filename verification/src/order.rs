//! Lexicographic order on character sequences (the order of `String`), and
//! sorted sets of strings kept in vectors.
use vstd::prelude::*;
use crate::text::{chars_of, views};

verus! {

broadcast use vstd::seq_lib::group_seq_properties;

/// `a` sorts strictly before `b`, comparing characters by code point (the
/// order of `str`'s `Ord`, which compares UTF-8 bytes).
pub open spec fn seq_lt(a: Seq<char>, b: Seq<char>) -> bool
    decreases a.len(),
{
    if b.len() == 0 {
        false
    } else if a.len() == 0 {
        true
    } else if a[0] != b[0] {
        (a[0] as int) < (b[0] as int)
    } else {
        seq_lt(a.drop_first(), b.drop_first())
    }
}

/// No sequence sorts before itself.
pub proof fn lemma_lt_irreflexive(a: Seq<char>)
    ensures
        !seq_lt(a, a),
    decreases a.len(),
{
    if a.len() > 0 {
        lemma_lt_irreflexive(a.drop_first());
    }
}

/// Of two different sequences, one sorts before the other, and not both.
pub proof fn lemma_lt_total(a: Seq<char>, b: Seq<char>)
    ensures
        a != b ==> (seq_lt(a, b) || seq_lt(b, a)),
        !(seq_lt(a, b) && seq_lt(b, a)),
    decreases a.len(),
{
    if a.len() > 0 && b.len() > 0 && a[0] == b[0] {
        lemma_lt_total(a.drop_first(), b.drop_first());
        if a != b {
            assert(a =~= seq![a[0]] + a.drop_first());
            assert(b =~= seq![b[0]] + b.drop_first());
        }
    } else if a.len() == 0 && b.len() == 0 {
        assert(a =~= b);
    } else if a.len() > 0 && b.len() > 0 {
        assert((a[0] as int) != (b[0] as int));
    }
}

/// The order is transitive.
pub proof fn lemma_lt_transitive(a: Seq<char>, b: Seq<char>, c: Seq<char>)
    requires
        seq_lt(a, b),
        seq_lt(b, c),
    ensures
        seq_lt(a, c),
    decreases a.len(),
{
    if a.len() > 0 && b.len() > 0 && c.len() > 0 && a[0] == b[0] && b[0] == c[0] {
        lemma_lt_transitive(a.drop_first(), b.drop_first(), c.drop_first());
    }
}

/// Decides `seq_lt`.
pub fn chars_lt(a: &[char], b: &[char]) -> (r: bool)
    ensures
        r == seq_lt(a@, b@),
{
    let mut i: usize = 0;
    while i < a.len() && i < b.len() && a[i] == b[i]
        invariant
            i <= a@.len(),
            i <= b@.len(),
            seq_lt(a@, b@) == seq_lt(a@.skip(i as int), b@.skip(i as int)),
        decreases a@.len() - i,
    {
        assert(a@.skip(i as int).drop_first() =~= a@.skip(i + 1));
        assert(b@.skip(i as int).drop_first() =~= b@.skip(i + 1));
        i = i + 1;
    }
    if i == b.len() {
        false
    } else if i == a.len() {
        true
    } else {
        a[i] < b[i]
    }
}

/// Decides `seq_lt` on strings.
pub fn str_lt(a: &str, b: &str) -> (r: bool)
    ensures
        r == seq_lt(a@, b@),
{
    let va = chars_of(a);
    let vb = chars_of(b);
    chars_lt(va.as_slice(), vb.as_slice())
}

/// `s` is strictly increasing.
pub open spec fn sorted_strict(s: Seq<Seq<char>>) -> bool {
    forall|i: int, j: int| 0 <= i < j < s.len() ==> seq_lt(#[trigger] s[i], #[trigger] s[j])
}

/// Two strictly increasing sequences with the same elements are equal.
pub proof fn lemma_sorted_unique(a: Seq<Seq<char>>, b: Seq<Seq<char>>)
    requires
        sorted_strict(a),
        sorted_strict(b),
        a.to_set() == b.to_set(),
    ensures
        a == b,
    decreases a.len(),
{
    if a.len() == 0 {
        if b.len() > 0 {
            assert(b.to_set().contains(b[0]));
        }
        assert(b.len() == 0);
        assert(a =~= b);
    } else if b.len() == 0 {
        assert(a.to_set().contains(a[0]));
    } else {
        // the least elements agree
        assert(a.to_set().contains(a[0]));
        assert(b.to_set().contains(b[0]));
        let ia = choose|i: int| 0 <= i < a.len() && a[i] == b[0];
        let ib = choose|i: int| 0 <= i < b.len() && b[i] == a[0];
        if a[0] != b[0] {
            assert(ia > 0);
            assert(ib > 0);
            assert(seq_lt(a[0], a[ia]));
            assert(seq_lt(b[0], b[ib]));
            lemma_lt_total(a[0], b[0]);
        }
        let ta = a.drop_first();
        let tb = b.drop_first();
        assert(ta.to_set() =~= tb.to_set()) by {
            assert forall|x: Seq<char>| ta.to_set().contains(x) implies tb.to_set().contains(x) by {
                let i = choose|i: int| 0 <= i < ta.len() && ta[i] == x;
                assert(a[i + 1] == x);
                assert(a.to_set().contains(x));
                let j = choose|j: int| 0 <= j < b.len() && b[j] == x;
                assert(seq_lt(a[0], a[i + 1]));
                if j == 0 {
                    lemma_lt_irreflexive(x);
                }
                assert(tb[j - 1] == x);
            }
            assert forall|x: Seq<char>| tb.to_set().contains(x) implies ta.to_set().contains(x) by {
                let i = choose|i: int| 0 <= i < tb.len() && tb[i] == x;
                assert(b[i + 1] == x);
                assert(b.to_set().contains(x));
                let j = choose|j: int| 0 <= j < a.len() && a[j] == x;
                assert(seq_lt(b[0], b[i + 1]));
                if j == 0 {
                    lemma_lt_irreflexive(x);
                }
                assert(ta[j - 1] == x);
            }
        }
        lemma_sorted_unique(ta, tb);
        assert(a =~= seq![a[0]] + ta);
        assert(b =~= seq![b[0]] + tb);
    }
}

/// Adds `x` to a strictly increasing list of strings, keeping it strictly
/// increasing; nothing changes when `x` is already present.
pub fn insert_sorted(v: &mut Vec<String>, x: &str)
    requires
        sorted_strict(views(old(v)@)),
    ensures
        sorted_strict(views(final(v)@)),
        views(final(v)@).to_set() == views(old(v)@).to_set().insert(x@),
{
    let ghost s0 = views(v@);
    let mut i: usize = 0;
    while i < v.len() && str_lt(v[i].as_str(), x)
        invariant
            i <= v@.len(),
            views(v@) == s0,
            forall|k: int| 0 <= k < i ==> seq_lt(#[trigger] s0[k], x@),
        decreases v@.len() - i,
    {
        i = i + 1;
    }
    if i < v.len() && crate::text::str_eq(v[i].as_str(), x) {
        assert(s0.to_set().insert(x@) =~= s0.to_set()) by {
            assert(s0[i as int] == x@);
        }
        return;
    }
    // every element from i on is after x
    assert forall|k: int| i <= k < s0.len() implies seq_lt(x@, #[trigger] s0[k]) by {
        lemma_lt_total(s0[i as int], x@);
        if k > i {
            lemma_lt_transitive(x@, s0[i as int], s0[k]);
        }
    }
    v.insert(i, crate::text::owned(x));
    let ghost s1 = views(v@);
    assert(s1 =~= s0.insert(i as int, x@));
    assert(sorted_strict(s1)) by {
        assert forall|a: int, b: int| 0 <= a < b < s1.len() implies seq_lt(
            #[trigger] s1[a],
            #[trigger] s1[b],
        ) by {
            if b == i {
                assert(s1[a] == s0[a]);
            } else if a == i {
                assert(s1[b] == s0[b - 1]);
            } else if a < i && b > i {
                assert(s1[a] == s0[a]);
                assert(s1[b] == s0[b - 1]);
                lemma_lt_transitive(s0[a], x@, s0[b - 1]);
            } else if b < i {
                assert(s1[a] == s0[a] && s1[b] == s0[b]);
            } else {
                assert(s1[a] == s0[a - 1] && s1[b] == s0[b - 1]);
            }
        }
    }
    assert(s1.to_set() =~= s0.to_set().insert(x@)) by {
        assert forall|y: Seq<char>| s1.to_set().contains(y) implies s0.to_set().insert(x@).contains(
            y,
        ) by {
            let j = choose|j: int| 0 <= j < s1.len() && s1[j] == y;
            if j < i {
                assert(s0[j] == y);
            } else if j > i {
                assert(s0[j - 1] == y);
            }
        }
        assert forall|y: Seq<char>| s0.to_set().insert(x@).contains(y) implies s1.to_set().contains(
            y,
        ) by {
            if y == x@ {
                assert(s1[i as int] == y);
            } else {
                let j = choose|j: int| 0 <= j < s0.len() && s0[j] == y;
                if j < i {
                    assert(s1[j] == y);
                } else {
                    assert(s1[j + 1] == y);
                }
            }
        }
    }
}

// ---------------------------------------------------------------------------
// Stable sorting by name
// ---------------------------------------------------------------------------

/// Where an entry named `x` goes in `s`, a list of indices into `names`
/// already in order: before the first entry whose name sorts after `x`.
pub open spec fn insert_pos(s: Seq<int>, names: Seq<Seq<char>>, x: Seq<char>) -> int
    decreases s.len(),
{
    if s.len() == 0 {
        0
    } else if seq_lt(x, names[s[0]]) {
        0
    } else {
        1 + insert_pos(s.drop_first(), names, x)
    }
}

/// The order in which a stable sort by name puts the first `n` entries of
/// `names`: a list of their indices.
pub open spec fn stable_order(names: Seq<Seq<char>>, n: nat) -> Seq<int>
    decreases n,
{
    if n == 0 {
        Seq::empty()
    } else {
        let s = stable_order(names, (n - 1) as nat);
        s.insert(insert_pos(s, names, names[n - 1]), n - 1)
    }
}

proof fn lemma_insert_pos_bounds(s: Seq<int>, names: Seq<Seq<char>>, x: Seq<char>)
    ensures
        0 <= insert_pos(s, names, x) <= s.len(),
    decreases s.len(),
{
    if s.len() > 0 {
        lemma_insert_pos_bounds(s.drop_first(), names, x);
    }
}

/// The stable order lists each of the first `n` indices once.
pub proof fn lemma_stable_order_indices(names: Seq<Seq<char>>, n: nat)
    ensures
        stable_order(names, n).len() == n,
        forall|k: int| 0 <= k < n ==> 0 <= #[trigger] stable_order(names, n)[k] < n,
        forall|a: int, b: int|
            0 <= a < b < n ==> #[trigger] stable_order(names, n)[a] != #[trigger] stable_order(
                names,
                n,
            )[b],
    decreases n,
{
    if n > 0 {
        let s = stable_order(names, (n - 1) as nat);
        lemma_stable_order_indices(names, (n - 1) as nat);
        lemma_insert_pos_bounds(s, names, names[n - 1]);
        let p = insert_pos(s, names, names[n - 1]);
        lemma_insert_keeps_indices(s, p, n - 1);
    }
}

proof fn lemma_insert_keeps_indices(s: Seq<int>, p: int, m: int)
    requires
        0 <= p <= s.len(),
        s.len() == m,
        forall|k: int| 0 <= k < m ==> 0 <= #[trigger] s[k] < m,
        forall|a: int, b: int| 0 <= a < b < m ==> #[trigger] s[a] != #[trigger] s[b],
    ensures
        forall|k: int| 0 <= k < m + 1 ==> 0 <= #[trigger] s.insert(p, m)[k] < m + 1,
        forall|a: int, b: int|
            0 <= a < b < m + 1 ==> #[trigger] s.insert(p, m)[a] != #[trigger] s.insert(p, m)[b],
{
    let t = s.insert(p, m);
    assert forall|k: int| 0 <= k < m + 1 implies 0 <= #[trigger] t[k] < m + 1 by {
        if k < p {
            assert(t[k] == s[k]);
        } else if k > p {
            assert(t[k] == s[k - 1]);
        }
    }
    assert forall|a: int, b: int| 0 <= a < b < m + 1 implies #[trigger] t[a] != #[trigger] t[b] by {
        if b < p {
            assert(t[a] == s[a] && t[b] == s[b]);
        } else if b == p {
            assert(t[a] == s[a]);
        } else if a < p {
            assert(t[a] == s[a] && t[b] == s[b - 1]);
        } else if a == p {
            assert(t[b] == s[b - 1]);
        } else {
            assert(t[a] == s[a - 1] && t[b] == s[b - 1]);
        }
    }
}

/// Along `s`, names never decrease, and entries with equal names keep the
/// order of their indices.
pub open spec fn sorted_by_name(s: Seq<int>, names: Seq<Seq<char>>) -> bool {
    forall|a: int, b: int|
        0 <= a < b < s.len() ==> !seq_lt(names[#[trigger] s[b]], names[#[trigger] s[a]]) && (
        names[s[a]] == names[s[b]] ==> s[a] < s[b])
}

proof fn lemma_insert_pos_facts(s: Seq<int>, names: Seq<Seq<char>>, x: Seq<char>)
    ensures
        forall|k: int|
            0 <= k < insert_pos(s, names, x) ==> !seq_lt(x, #[trigger] names[s[k]]),
        insert_pos(s, names, x) < s.len() ==> seq_lt(x, names[s[insert_pos(s, names, x)]]),
    decreases s.len(),
{
    if s.len() > 0 && !seq_lt(x, names[s[0]]) {
        let t = s.drop_first();
        lemma_insert_pos_facts(t, names, x);
        lemma_insert_pos_bounds(t, names, x);
        assert forall|k: int| 0 <= k < insert_pos(s, names, x) implies !seq_lt(
            x,
            #[trigger] names[s[k]],
        ) by {
            if k > 0 {
                assert(s[k] == t[k - 1]);
            }
        }
        if insert_pos(s, names, x) < s.len() {
            assert(s[insert_pos(s, names, x)] == t[insert_pos(t, names, x)]);
        }
    }
}

proof fn lemma_after_insert_pos(s: Seq<int>, names: Seq<Seq<char>>, x: Seq<char>)
    requires
        sorted_by_name(s, names),
    ensures
        forall|k: int|
            insert_pos(s, names, x) <= k < s.len() ==> seq_lt(x, #[trigger] names[s[k]]),
{
    lemma_insert_pos_facts(s, names, x);
    lemma_insert_pos_bounds(s, names, x);
    let p = insert_pos(s, names, x);
    assert forall|k: int| p <= k < s.len() implies seq_lt(x, #[trigger] names[s[k]]) by {
        if k > p {
            assert(!seq_lt(names[s[k]], names[s[p]]));
            lemma_lt_total(names[s[p]], names[s[k]]);
            if names[s[p]] != names[s[k]] {
                lemma_lt_transitive(x, names[s[p]], names[s[k]]);
            }
        }
    }
}

/// A stable sort by name: along the stable order names never decrease, and
/// entries with equal names stay in their original order.
pub proof fn law_stable_order_sorted(names: Seq<Seq<char>>, n: nat)
    ensures
        sorted_by_name(stable_order(names, n), names),
    decreases n,
{
    if n > 0 {
        let s = stable_order(names, (n - 1) as nat);
        let x = names[n - 1];
        law_stable_order_sorted(names, (n - 1) as nat);
        lemma_stable_order_indices(names, (n - 1) as nat);
        lemma_insert_pos_bounds(s, names, x);
        lemma_insert_pos_facts(s, names, x);
        lemma_after_insert_pos(s, names, x);
        let p = insert_pos(s, names, x);
        let t = s.insert(p, n - 1);
        assert(t == stable_order(names, n));
        assert forall|a: int, b: int| 0 <= a < b < t.len() implies !seq_lt(
            names[#[trigger] t[b]],
            names[#[trigger] t[a]],
        ) && (names[t[a]] == names[t[b]] ==> t[a] < t[b]) by {
            if b < p {
                assert(t[a] == s[a] && t[b] == s[b]);
            } else if b == p {
                assert(t[a] == s[a] && t[b] == n - 1);
                assert(!seq_lt(x, names[s[a]]));
                assert(s[a] < n - 1);
            } else if a < p {
                assert(t[a] == s[a] && t[b] == s[b - 1]);
            } else if a == p {
                assert(t[a] == n - 1 && t[b] == s[b - 1]);
                assert(seq_lt(x, names[s[b - 1]]));
                lemma_lt_total(x, names[s[b - 1]]);
                lemma_lt_irreflexive(x);
            } else {
                assert(t[a] == s[a - 1] && t[b] == s[b - 1]);
            }
        }
    }
}

fn find_insert_pos(order: &Vec<usize>, names: &Vec<String>, x: &str) -> (p: usize)
    requires
        forall|k: int| 0 <= k < order@.len() ==> #[trigger] order@[k] < names@.len(),
    ensures
        p <= order@.len(),
        p == insert_pos(order@.map_values(|i: usize| i as int), views(names@), x@),
{
    let ghost s = order@.map_values(|i: usize| i as int);
    let mut p: usize = 0;
    while p < order.len() && !str_lt(x, names[order[p]].as_str())
        invariant
            p <= order@.len(),
            s == order@.map_values(|i: usize| i as int),
            forall|k: int| 0 <= k < order@.len() ==> #[trigger] order@[k] < names@.len(),
            insert_pos(s, views(names@), x@) == p + insert_pos(s.skip(p as int), views(names@), x@),
        decreases order@.len() - p,
    {
        assert(s.skip(p as int).drop_first() =~= s.skip(p + 1));
        assert(s.skip(p as int)[0] == order@[p as int] as int);
        p = p + 1;
    }
    if p < order.len() {
        assert(s.skip(p as int)[0] == order@[p as int] as int);
    }
    p
}

/// The order of a stable sort of entries by their names: the indices of
/// `names`, listed as `stable_order` lists them.
pub fn stable_sort_order(names: &Vec<String>) -> (r: Vec<usize>)
    ensures
        r@.map_values(|i: usize| i as int) == stable_order(views(names@), names@.len()),
        r@.len() == names@.len(),
        forall|k: int| 0 <= k < r@.len() ==> #[trigger] r@[k] < names@.len(),
{
    let mut order: Vec<usize> = Vec::new();
    let mut n: usize = 0;
    while n < names.len()
        invariant
            n <= names@.len(),
            order@.map_values(|i: usize| i as int) == stable_order(views(names@), n as nat),
            order@.len() == n,
            forall|k: int| 0 <= k < order@.len() ==> #[trigger] order@[k] < n,
        decreases names@.len() - n,
    {
        let p = find_insert_pos(&order, names, names[n].as_str());
        let ghost before = order@;
        order.insert(p, n);
        proof {
            let s = before.map_values(|i: usize| i as int);
            assert(order@.map_values(|i: usize| i as int) =~= s.insert(p as int, n as int));
            assert(views(names@)[n as int] == names@[n as int]@);
            assert forall|k: int| 0 <= k < order@.len() implies #[trigger] order@[k] < n + 1 by {
                if k < p {
                    assert(order@[k] == before[k]);
                } else if k > p {
                    assert(order@[k] == before[k - 1]);
                }
            }
        }
        n = n + 1;
    }
    order
}

} // verus!
