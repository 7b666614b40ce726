//! Names derived from API descriptions: function names from operation ids
//! or from method and path, and API names from titles.
use vstd::prelude::*;
use crate::text::{
    ascii_lower, chars_of, join, join_strings, lowercase, owned, push_char, push_chars, push_line,
    push_str, split, split_chars, string_of, sub_chars, to_lowercase, views,
};

verus! {

broadcast use vstd::seq_lib::group_seq_properties;

// ---------------------------------------------------------------------------
// Character classes of the standard library
// ---------------------------------------------------------------------------

/// An ASCII character (below U+0080).
pub open spec fn is_ascii_char(c: char) -> bool {
    c < '\u{80}'
}

/// `char::is_uppercase` on a character outside ASCII.
pub uninterp spec fn unicode_upper(c: char) -> bool;

/// `char::is_lowercase` on a character outside ASCII.
pub uninterp spec fn unicode_lower(c: char) -> bool;

/// `char::is_alphanumeric` on a character outside ASCII.
pub uninterp spec fn unicode_alnum(c: char) -> bool;

/// The first character of `char::to_lowercase` on a character outside ASCII.
pub uninterp spec fn unicode_lower_first(c: char) -> Option<char>;

/// `char::is_uppercase`: on ASCII exactly `A`..`Z`.
pub open spec fn is_upper(c: char) -> bool {
    if is_ascii_char(c) {
        'A' <= c && c <= 'Z'
    } else {
        unicode_upper(c)
    }
}

/// `char::is_lowercase`: on ASCII exactly `a`..`z`.
pub open spec fn is_lower(c: char) -> bool {
    if is_ascii_char(c) {
        'a' <= c && c <= 'z'
    } else {
        unicode_lower(c)
    }
}

/// `char::is_alphanumeric`: on ASCII exactly the letters and digits.
pub open spec fn is_alnum(c: char) -> bool {
    if is_ascii_char(c) {
        ('A' <= c && c <= 'Z') || ('a' <= c && c <= 'z') || ('0' <= c && c <= '9')
    } else {
        unicode_alnum(c)
    }
}

/// The first character of `char::to_lowercase`, if any: on ASCII the
/// letter's lowercase form, any other ASCII character itself.
pub open spec fn lower_first(c: char) -> Option<char> {
    if is_ascii_char(c) {
        Some(ascii_lower(c))
    } else {
        unicode_lower_first(c)
    }
}

/// The standard library's `char::is_uppercase` (the Unicode `Uppercase`
/// property); its result is `is_upper`, exact on ASCII.
#[verifier::external_body]
fn char_is_upper(c: char) -> (r: bool)
    ensures
        r == is_upper(c),
        !is_ascii_char(c) ==> r == unicode_upper(c),
{
    c.is_uppercase()
}

/// The standard library's `char::is_lowercase` (the Unicode `Lowercase`
/// property); its result is `is_lower`, exact on ASCII.
#[verifier::external_body]
fn char_is_lower(c: char) -> (r: bool)
    ensures
        r == is_lower(c),
        !is_ascii_char(c) ==> r == unicode_lower(c),
{
    c.is_lowercase()
}

/// The standard library's `char::is_alphanumeric` (Unicode `Alphabetic` or
/// `Numeric`); its result is `is_alnum`, exact on ASCII.
#[verifier::external_body]
fn char_is_alnum(c: char) -> (r: bool)
    ensures
        r == is_alnum(c),
        !is_ascii_char(c) ==> r == unicode_alnum(c),
{
    c.is_alphanumeric()
}

/// The first character of the standard library's `char::to_lowercase`;
/// its result is `lower_first`, exact on ASCII.
#[verifier::external_body]
fn char_lower_first(c: char) -> (r: Option<char>)
    ensures
        r == lower_first(c),
        !is_ascii_char(c) ==> r == unicode_lower_first(c),
{
    c.to_lowercase().next()
}

/// An ASCII decimal digit.
pub open spec fn is_digit(c: char) -> bool {
    '0' <= c && c <= '9'
}

// ---------------------------------------------------------------------------
// camelCase to snake_case
// ---------------------------------------------------------------------------

/// An uppercase character at `i` starts a new word: after a lowercase
/// character or a digit, or as the last capital of a run that a lowercase
/// character follows.
pub open spec fn starts_word(s: Seq<char>, i: int) -> bool {
    0 < i && (is_lower(s[i - 1]) || is_digit(s[i - 1]) || (is_upper(s[i - 1]) && i + 1 < s.len()
        && is_lower(s[i + 1])))
}

/// What the character at `i` becomes: an uppercase one is lowercased, after
/// an underscore when it starts a word; any other stays.
pub open spec fn snake_piece(s: Seq<char>, i: int) -> Seq<char> {
    if is_upper(s[i]) {
        (if starts_word(s, i) {
            seq!['_']
        } else {
            Seq::<char>::empty()
        }) + match lower_first(s[i]) {
            Some(l) => seq![l],
            None => Seq::<char>::empty(),
        }
    } else {
        seq![s[i]]
    }
}

/// The pieces of the first `n` characters.
pub open spec fn snake_prefix(s: Seq<char>, n: int) -> Seq<char>
    decreases n,
{
    if n <= 0 {
        Seq::empty()
    } else {
        snake_prefix(s, n - 1) + snake_piece(s, n - 1)
    }
}

/// `camelCase` in `snake_case`.
pub open spec fn snake_case(s: Seq<char>) -> Seq<char> {
    snake_prefix(s, s.len() as int)
}

fn snake_chars(s: &[char]) -> (r: String)
    ensures
        r@ == snake_case(s@),
{
    let n = s.len();
    let mut r = String::new();
    let mut i: usize = 0;
    while i < n
        invariant
            n == s@.len(),
            i <= n,
            r@ == snake_prefix(s@, i as int),
        decreases n - i,
    {
        let c = s[i];
        let ghost before = r@;
        if char_is_upper(c) {
            if i > 0 {
                let prev = s[i - 1];
                let next_is_lower = i + 1 < n && char_is_lower(s[i + 1]);
                if char_is_lower(prev) || ('0' <= prev && prev <= '9') {
                    push_char(&mut r, '_');
                } else if char_is_upper(prev) && next_is_lower {
                    push_char(&mut r, '_');
                }
            }
            let ghost mid = r@;
            match char_lower_first(c) {
                Some(l) => push_char(&mut r, l),
                None => {},
            }
            assert(r@ =~= before + snake_piece(s@, i as int));
        } else {
            push_char(&mut r, c);
            assert(r@ =~= before + snake_piece(s@, i as int));
        }
        i = i + 1;
    }
    r
}

/// A name with no uppercase character is already in `snake_case`: the
/// conversion leaves it unchanged.
pub proof fn law_snake_case_keeps_lowercase(s: Seq<char>)
    requires
        forall|i: int| 0 <= i < s.len() ==> !is_upper(#[trigger] s[i]),
    ensures
        snake_case(s) == s,
{
    lemma_snake_prefix_keeps(s, s.len() as int);
    assert(s.take(s.len() as int) =~= s);
}

proof fn lemma_snake_prefix_keeps(s: Seq<char>, n: int)
    requires
        0 <= n <= s.len(),
        forall|i: int| 0 <= i < s.len() ==> !is_upper(#[trigger] s[i]),
    ensures
        snake_prefix(s, n) == s.take(n),
    decreases n,
{
    if n > 0 {
        lemma_snake_prefix_keeps(s, n - 1);
        assert(!is_upper(s[n - 1]));
        assert(s.take(n) =~= s.take(n - 1) + seq![s[n - 1]]);
    } else {
        assert(s.take(0) =~= Seq::<char>::empty());
    }
}

proof fn lemma_snake_prefix_has_no_upper(s: Seq<char>, n: int)
    requires
        0 <= n <= s.len(),
        forall|i: int| 0 <= i < s.len() ==> is_ascii_char(#[trigger] s[i]),
    ensures
        forall|i: int| 0 <= i < snake_prefix(s, n).len() ==> !is_upper(#[trigger] snake_prefix(s, n)[i]),
    decreases n,
{
    if n > 0 {
        lemma_snake_prefix_has_no_upper(s, n - 1);
        let c = s[n - 1];
        let prev = snake_prefix(s, n - 1);
        let piece = snake_piece(s, n - 1);
        if is_upper(c) {
            assert(is_ascii_char(c));
            let l = ascii_lower(c);
            assert(65 <= (c as u32) <= 90);
            assert(l == ((c as u32) + 32) as char);
            assert(97 <= (l as u32) <= 122);
            assert(!is_upper(l));
            assert(lower_first(c) == Some(l));
        }
        assert forall|i: int| 0 <= i < piece.len() implies !is_upper(#[trigger] piece[i]) by {}
        assert(snake_prefix(s, n) == prev + piece);
        assert forall|i: int| 0 <= i < snake_prefix(s, n).len() implies !is_upper(
            #[trigger] snake_prefix(s, n)[i],
        ) by {
            if i < prev.len() {
                assert(snake_prefix(s, n)[i] == prev[i]);
            } else {
                assert(snake_prefix(s, n)[i] == piece[i - prev.len()]);
            }
        }
    }
}

/// On ASCII names the conversion is idempotent: converting a `snake_case`
/// result again changes nothing.
pub proof fn law_snake_case_idempotent(s: Seq<char>)
    requires
        forall|i: int| 0 <= i < s.len() ==> is_ascii_char(#[trigger] s[i]),
    ensures
        snake_case(snake_case(s)) == snake_case(s),
{
    lemma_snake_prefix_has_no_upper(s, s.len() as int);
    law_snake_case_keeps_lowercase(snake_case(s));
}

/// Converts `camelCase` to `snake_case` (`listPets` is `list_pets`,
/// `HTMLParser` is `html_parser`).
pub fn camel_to_snake(s: &str) -> (r: String)
    ensures
        r@ == snake_case(s@),
{
    let cs = chars_of(s);
    snake_chars(cs.as_slice())
}

// ---------------------------------------------------------------------------
// Function names
// ---------------------------------------------------------------------------

/// A path segment in a name: `{param}` becomes `by_` and the parameter in
/// `snake_case`; any other segment stays.
pub open spec fn segment_name(seg: Seq<char>) -> Seq<char> {
    if seg.len() >= 2 && seg[0] == '{' && seg.last() == '}' {
        "by_"@ + snake_case(seg.subrange(1, seg.len() - 1))
    } else {
        seg
    }
}

/// The non-empty segments of a path.
pub open spec fn path_segments(path: Seq<char>) -> Seq<Seq<char>> {
    split(path, '/').filter(|seg: Seq<char>| seg.len() > 0)
}

/// The name of an operation without an id: the lowercased method, then the
/// path's segments, joined by underscores (`GET /pets/{petId}` is
/// `get_pets_by_pet_id`).
pub open spec fn fallback_name(method: Seq<char>, path: Seq<char>) -> Seq<char> {
    join(seq![lowercase(method)] + path_segments(path).map_values(|seg: Seq<char>| segment_name(seg)), "_"@)
}

fn segment_name_of(seg: &[char]) -> (r: String)
    ensures
        r@ == segment_name(seg@),
{
    let n = seg.len();
    if n >= 2 && seg[0] == '{' && seg[n - 1] == '}' {
        let inner = sub_chars(seg, 1, n - 1);
        let mut r = owned("by_");
        let snake = snake_chars(inner.as_slice());
        push_str(&mut r, snake.as_str());
        r
    } else {
        string_of(seg)
    }
}

/// Builds a function name from method and path (see `fallback_name`).
pub fn fallback_function_name(method: &str, path: &str) -> (r: String)
    ensures
        r@ == fallback_name(method@, path@),
{
    let mut parts: Vec<String> = Vec::new();
    push_line(&mut parts, to_lowercase(method));
    let pv = chars_of(path);
    let pieces = split_chars(pv.as_slice(), '/');
    let ghost sp = split(path@, '/');
    let ghost pred = |seg: Seq<char>| seg.len() > 0;
    let ghost f = |seg: Seq<char>| segment_name(seg);
    let mut i: usize = 0;
    proof {
        assert(sp.take(0).filter(pred) =~= Seq::<Seq<char>>::empty());
        assert(views(parts@) =~= seq![lowercase(method@)] + sp.take(0).filter(pred).map_values(f));
    }
    while i < pieces.len()
        invariant
            i <= pieces@.len(),
            pieces@.len() == sp.len(),
            forall|k: int| 0 <= k < pieces@.len() ==> #[trigger] pieces@[k]@ == sp[k],
            pred == (|seg: Seq<char>| seg.len() > 0),
            f == (|seg: Seq<char>| segment_name(seg)),
            views(parts@) == seq![lowercase(method@)] + sp.take(i as int).filter(pred).map_values(f),
        decreases pieces@.len() - i,
    {
        proof {
            assert(sp.take(i + 1).drop_last() =~= sp.take(i as int));
            assert(pieces@[i as int]@ == sp[i as int]);
            reveal(Seq::filter);
        }
        let seg = &pieces[i];
        if seg.len() > 0 {
            let name = segment_name_of(seg.as_slice());
            let ghost before = views(parts@);
            push_line(&mut parts, name);
            assert(sp.take(i + 1).filter(pred) == sp.take(i as int).filter(pred).push(sp[i as int]));
            assert(sp.take(i + 1).filter(pred).map_values(f) =~= sp.take(i as int).filter(pred).map_values(f).push(f(sp[i as int])));
            assert(views(parts@) =~= seq![lowercase(method@)] + sp.take(i + 1).filter(pred).map_values(f));
        } else {
            assert(sp.take(i + 1).filter(pred) == sp.take(i as int).filter(pred));
        }
        i = i + 1;
    }
    assert(sp.take(sp.len() as int) =~= sp);
    join_strings(&parts, "_")
}

/// The name of an operation: its id in `snake_case`, else built from method
/// and path.
pub fn derive_function_name(operation_id: Option<&str>, method: &str, path: &str) -> (r: String)
    ensures
        r@ == match operation_id {
            Some(id) => snake_case(id@),
            None => fallback_name(method@, path@),
        },
{
    match operation_id {
        Some(id) => camel_to_snake(id),
        None => fallback_function_name(method, path),
    }
}

// ---------------------------------------------------------------------------
// API names
// ---------------------------------------------------------------------------

/// Every character that is not alphanumeric becomes `_`.
pub open spec fn underscored(s: Seq<char>) -> Seq<char> {
    s.map_values(|c: char| if is_alnum(c) { c } else { '_' })
}

/// Runs of `_` collapsed to one.
pub open spec fn collapse_underscores(s: Seq<char>) -> Seq<char>
    decreases s.len(),
{
    if s.len() == 0 {
        s
    } else {
        let r = collapse_underscores(s.drop_last());
        if s.last() == '_' && r.len() > 0 && r.last() == '_' {
            r
        } else {
            r.push(s.last())
        }
    }
}

/// Leading `_` removed.
pub open spec fn trim_start_underscores(s: Seq<char>) -> Seq<char>
    decreases s.len(),
{
    if s.len() > 0 && s[0] == '_' {
        trim_start_underscores(s.drop_first())
    } else {
        s
    }
}

/// Trailing `_` removed.
pub open spec fn trim_end_underscores(s: Seq<char>) -> Seq<char>
    decreases s.len(),
{
    if s.len() > 0 && s.last() == '_' {
        trim_end_underscores(s.drop_last())
    } else {
        s
    }
}

/// The API name for a title: lowercased, every non-alphanumeric character
/// an underscore, runs of underscores collapsed, and none at either end.
pub open spec fn api_name(title: Seq<char>) -> Seq<char> {
    trim_end_underscores(trim_start_underscores(collapse_underscores(underscored(lowercase(title)))))
}

fn trim_underscores(v: &[char]) -> (r: Vec<char>)
    ensures
        r@ == trim_end_underscores(trim_start_underscores(v@)),
{
    let n = v.len();
    let mut lo: usize = 0;
    while lo < n && v[lo] == '_'
        invariant
            lo <= n,
            n == v@.len(),
            trim_start_underscores(v@) == trim_start_underscores(v@.skip(lo as int)),
        decreases n - lo,
    {
        assert(v@.skip(lo as int).drop_first() =~= v@.skip(lo + 1));
        lo = lo + 1;
    }
    let ghost t = v@.skip(lo as int);
    assert(trim_start_underscores(t) == t);
    let mut hi: usize = n;
    while hi > lo && v[hi - 1] == '_'
        invariant
            lo <= hi <= n,
            n == v@.len(),
            t == v@.skip(lo as int),
            trim_end_underscores(t) == trim_end_underscores(v@.subrange(lo as int, hi as int)),
        decreases hi,
    {
        assert(v@.subrange(lo as int, hi as int).drop_last() =~= v@.subrange(lo as int, hi - 1));
        hi = hi - 1;
    }
    assert(v@.subrange(lo as int, n as int) =~= t);
    sub_chars(v, lo, hi)
}

/// Derives an API name from a title (see `api_name`): `My Cool API` is
/// `my_cool_api`.
pub fn derive_api_name(title: &str) -> (r: String)
    ensures
        r@ == api_name(title@),
{
    let lower = to_lowercase(title);
    let cs = chars_of(lower.as_str());
    let mut collapsed: Vec<char> = Vec::new();
    let mut i: usize = 0;
    while i < cs.len()
        invariant
            i <= cs@.len(),
            cs@ == lowercase(title@),
            collapsed@ == collapse_underscores(underscored(cs@).take(i as int)),
        decreases cs@.len() - i,
    {
        let c = if char_is_alnum(cs[i]) {
            cs[i]
        } else {
            '_'
        };
        proof {
            let u = underscored(cs@);
            assert(u.take(i + 1).drop_last() =~= u.take(i as int));
            assert(u.take(i + 1).last() == c);
        }
        if !(c == '_' && collapsed.len() > 0 && collapsed[collapsed.len() - 1] == '_') {
            collapsed.push(c);
        }
        i = i + 1;
    }
    assert(underscored(cs@).take(cs@.len() as int) =~= underscored(cs@));
    let t = trim_underscores(collapsed.as_slice());
    string_of(t.as_slice())
}

} // verus!
