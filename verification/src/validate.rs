//! Validation of parameter values against their enum values and formats.
//!
//! Positions and lengths are counted in characters.
use vstd::prelude::*;
use crate::manifest::ParamDef;
use crate::text::{chars_of, find_char, join, join_strings, lemma_split_join, owned, push_str, split,
    split_chars, str_eq, sub_chars, views};

verus! {

broadcast use vstd::seq_lib::group_seq_properties;

// ---------------------------------------------------------------------------
// Character classes
// ---------------------------------------------------------------------------

/// An ASCII decimal digit.
pub open spec fn is_digit(c: char) -> bool {
    '0' <= c && c <= '9'
}

/// An ASCII hexadecimal digit.
pub open spec fn is_hex(c: char) -> bool {
    is_digit(c) || ('a' <= c && c <= 'f') || ('A' <= c && c <= 'F')
}

/// An ASCII letter or digit.
pub open spec fn is_alnum(c: char) -> bool {
    is_digit(c) || ('a' <= c && c <= 'z') || ('A' <= c && c <= 'Z')
}

/// Every character of `s` is a digit.
pub open spec fn all_digits(s: Seq<char>) -> bool {
    forall|i: int| 0 <= i < s.len() ==> is_digit(#[trigger] s[i])
}

/// Every character of `s` is a hex digit.
pub open spec fn all_hex(s: Seq<char>) -> bool {
    forall|i: int| 0 <= i < s.len() ==> is_hex(#[trigger] s[i])
}

fn digit_char(c: char) -> (r: bool)
    ensures
        r == is_digit(c),
{
    '0' <= c && c <= '9'
}

fn hex_char(c: char) -> (r: bool)
    ensures
        r == is_hex(c),
{
    ('0' <= c && c <= '9') || ('a' <= c && c <= 'f') || ('A' <= c && c <= 'F')
}

fn digits_only(s: &[char]) -> (r: bool)
    ensures
        r == all_digits(s@),
{
    let mut i: usize = 0;
    while i < s.len()
        invariant
            i <= s@.len(),
            forall|k: int| 0 <= k < i ==> is_digit(#[trigger] s@[k]),
        decreases s@.len() - i,
    {
        if !digit_char(s[i]) {
            return false;
        }
        i = i + 1;
    }
    true
}

fn hex_only(s: &[char]) -> (r: bool)
    ensures
        r == all_hex(s@),
{
    let mut i: usize = 0;
    while i < s.len()
        invariant
            i <= s@.len(),
            forall|k: int| 0 <= k < i ==> is_hex(#[trigger] s@[k]),
        decreases s@.len() - i,
    {
        if !hex_char(s[i]) {
            return false;
        }
        i = i + 1;
    }
    true
}

// ---------------------------------------------------------------------------
// uuid
// ---------------------------------------------------------------------------

/// The lengths of the five groups of a UUID.
pub open spec fn uuid_group_len(i: int) -> int {
    if i == 4 {
        12
    } else if i == 0 {
        8
    } else {
        4
    }
}

/// `8-4-4-4-12` hex digits separated by hyphens.
pub open spec fn spec_uuid(s: Seq<char>) -> bool {
    let parts = split(s, '-');
    parts.len() == 5 && forall|i: int|
        0 <= i < 5 ==> (#[trigger] parts[i]).len() == uuid_group_len(i) && all_hex(parts[i])
}

/// Checks the UUID shape.
pub fn is_valid_uuid(value: &str) -> (r: bool)
    ensures
        r == spec_uuid(value@),
{
    let v = chars_of(value);
    let parts = split_chars(v.as_slice(), '-');
    if parts.len() != 5 {
        return false;
    }
    let mut i: usize = 0;
    while i < 5
        invariant
            i <= 5,
            parts@.len() == 5,
            parts@.len() == split(value@, '-').len(),
            forall|k: int| 0 <= k < parts@.len() ==> #[trigger] parts@[k]@ == split(value@, '-')[k],
            forall|k: int|
                0 <= k < i ==> (#[trigger] split(value@, '-')[k]).len() == uuid_group_len(k)
                    && all_hex(split(value@, '-')[k]),
        decreases 5 - i,
    {
        let expected: usize = if i == 4 {
            12
        } else if i == 0 {
            8
        } else {
            4
        };
        if parts[i].len() != expected || !hex_only(parts[i].as_slice()) {
            assert(parts@[i as int]@ == split(value@, '-')[i as int]);
            return false;
        }
        i = i + 1;
    }
    true
}

// ---------------------------------------------------------------------------
// date and date-time
// ---------------------------------------------------------------------------

/// `YYYY-MM-DD`: ten characters, three hyphen-separated groups of 4, 2 and 2
/// digits.
pub open spec fn spec_date(s: Seq<char>) -> bool {
    let parts = split(s, '-');
    &&& s.len() == 10
    &&& parts.len() == 3
    &&& parts[0].len() == 4
    &&& parts[1].len() == 2
    &&& parts[2].len() == 2
    &&& all_digits(parts[0])
    &&& all_digits(parts[1])
    &&& all_digits(parts[2])
}

fn date_chars(v: &[char]) -> (r: bool)
    ensures
        r == spec_date(v@),
{
    if v.len() != 10 {
        return false;
    }
    let parts = split_chars(v, '-');
    if parts.len() != 3 {
        return false;
    }
    assert(parts@[0]@ == split(v@, '-')[0]);
    assert(parts@[1]@ == split(v@, '-')[1]);
    assert(parts@[2]@ == split(v@, '-')[2]);
    parts[0].len() == 4 && parts[1].len() == 2 && parts[2].len() == 2 && digits_only(
        parts[0].as_slice(),
    ) && digits_only(parts[1].as_slice()) && digits_only(parts[2].as_slice())
}

/// Checks the `YYYY-MM-DD` shape.
pub fn is_valid_date(value: &str) -> (r: bool)
    ensures
        r == spec_date(value@),
{
    let v = chars_of(value);
    date_chars(v.as_slice())
}

/// Index of the first character of `s` equal to `a` or `b`.
pub open spec fn first_pos(s: Seq<char>, a: char, b: char) -> Option<int> {
    if exists|i: int| 0 <= i < s.len() && (s[i] == a || s[i] == b) {
        Some(
            choose|i: int|
                0 <= i < s.len() && (s[i] == a || s[i] == b) && forall|j: int|
                    0 <= j < i ==> !(s[j] == a || s[j] == b),
        )
    } else {
        None
    }
}

/// Index of the last character of `s` equal to `a` or `b`.
pub open spec fn last_pos(s: Seq<char>, a: char, b: char) -> Option<int>
    decreases s.len(),
{
    if s.len() == 0 {
        None
    } else if s.last() == a || s.last() == b {
        Some(s.len() - 1)
    } else {
        last_pos(s.drop_last(), a, b)
    }
}

fn find_first2(s: &[char], a: char, b: char) -> (r: Option<usize>)
    ensures
        match r {
            Some(i) => first_pos(s@, a, b) == Some(i as int) && i < s@.len(),
            None => first_pos(s@, a, b) is None,
        },
{
    let mut i: usize = 0;
    while i < s.len()
        invariant
            i <= s@.len(),
            forall|j: int| 0 <= j < i ==> !(s@[j] == a || s@[j] == b),
        decreases s@.len() - i,
    {
        if s[i] == a || s[i] == b {
            proof {
                let w = i as int;
                assert(0 <= w < s@.len() && (s@[w] == a || s@[w] == b));
                let k = choose|k: int|
                    0 <= k < s@.len() && (s@[k] == a || s@[k] == b) && forall|j: int|
                        0 <= j < k ==> !(s@[j] == a || s@[j] == b);
                assert(0 <= w < s@.len() && (s@[w] == a || s@[w] == b) && forall|j: int|
                    0 <= j < w ==> !(s@[j] == a || s@[j] == b));
                assert(k == w) by {
                    if k < w {
                        assert(!(s@[k] == a || s@[k] == b));
                    } else if k > w {
                        assert(!(s@[w] == a || s@[w] == b));
                    }
                }
            }
            return Some(i);
        }
        i = i + 1;
    }
    None
}

fn find_last2(s: &[char], a: char, b: char) -> (r: Option<usize>)
    ensures
        match r {
            Some(i) => last_pos(s@, a, b) == Some(i as int) && i < s@.len(),
            None => last_pos(s@, a, b) is None,
        },
{
    let mut j: usize = s.len();
    while j > 0
        invariant
            j <= s@.len(),
            last_pos(s@, a, b) == last_pos(s@.take(j as int), a, b),
        decreases j,
    {
        assert(s@.take(j as int).drop_last() =~= s@.take(j - 1));
        if s[j - 1] == a || s[j - 1] == b {
            return Some(j - 1);
        }
        j = j - 1;
    }
    None
}

/// `HH:MM:SS` followed by nothing or by `.` and one or more digits.
pub open spec fn spec_time(t: Seq<char>) -> bool {
    &&& t.len() >= 8
    &&& is_digit(t[0]) && is_digit(t[1]) && t[2] == ':'
    &&& is_digit(t[3]) && is_digit(t[4]) && t[5] == ':'
    &&& is_digit(t[6]) && is_digit(t[7])
    &&& t.len() > 8 ==> (t[8] == '.' && t.len() >= 10 && all_digits(t.skip(9)))
}

/// `+HH:MM` or `-HH:MM`.
pub open spec fn spec_offset(o: Seq<char>) -> bool {
    &&& o.len() == 6
    &&& (o[0] == '+' || o[0] == '-')
    &&& is_digit(o[1]) && is_digit(o[2]) && o[3] == ':' && is_digit(o[4]) && is_digit(o[5])
}

/// The RFC 3339 shape `YYYY-MM-DDTHH:MM:SS[.frac](Z|+HH:MM|-HH:MM)` as the
/// check reads it: at least 20 characters; the date before the first `T`
/// (or `t`); after it, the time runs up to the last `Z` (or `z`), which must
/// be the final character; without one, up to the last `+`, or else up to
/// the last `-` found from the ninth character on, and what follows is the
/// offset.
pub open spec fn spec_date_time(s: Seq<char>) -> bool {
    s.len() >= 20 && match first_pos(s, 'T', 't') {
        None => false,
        Some(p) => {
            let rest = s.skip(p + 1);
            spec_date(s.take(p)) && rest.len() >= 9 && match last_pos(rest, 'Z', 'z') {
                Some(z) => z >= 8 && z == rest.len() - 1 && spec_time(rest.take(z)),
                None => match last_pos(rest, '+', '+') {
                    Some(q) => q >= 8 && spec_time(rest.take(q)) && spec_offset(rest.skip(q)),
                    None => match last_pos(rest.skip(8), '-', '-') {
                        Some(m) => spec_time(rest.take(8 + m)) && spec_offset(rest.skip(8 + m)),
                        None => false,
                    },
                },
            }
        },
    }
}

fn time_chars(t: &[char]) -> (r: bool)
    ensures
        r == spec_time(t@),
{
    if t.len() < 8 {
        return false;
    }
    if !(digit_char(t[0]) && digit_char(t[1]) && t[2] == ':' && digit_char(t[3]) && digit_char(t[4])
        && t[5] == ':' && digit_char(t[6]) && digit_char(t[7])) {
        return false;
    }
    if t.len() > 8 {
        if t[8] != '.' || t.len() < 10 {
            return false;
        }
        let frac = sub_chars(t, 9, t.len());
        assert(frac@ =~= t@.skip(9));
        return digits_only(frac.as_slice());
    }
    true
}

fn offset_chars(o: &[char]) -> (r: bool)
    ensures
        r == spec_offset(o@),
{
    o.len() == 6 && (o[0] == '+' || o[0] == '-') && digit_char(o[1]) && digit_char(o[2]) && o[3]
        == ':' && digit_char(o[4]) && digit_char(o[5])
}

/// Checks the RFC 3339 date-time shape (see `spec_date_time`).
pub fn is_valid_date_time(value: &str) -> (r: bool)
    ensures
        r == spec_date_time(value@),
{
    let v = chars_of(value);
    if v.len() < 20 {
        return false;
    }
    let p = match find_first2(v.as_slice(), 'T', 't') {
        Some(p) => p,
        None => return false,
    };
    let date_part = sub_chars(v.as_slice(), 0, p);
    let rest = sub_chars(v.as_slice(), p + 1, v.len());
    assert(date_part@ =~= v@.take(p as int));
    assert(rest@ =~= v@.skip(p + 1));
    if !date_chars(date_part.as_slice()) {
        return false;
    }
    if rest.len() < 9 {
        return false;
    }
    match find_last2(rest.as_slice(), 'Z', 'z') {
        Some(z) => {
            if z < 8 || z + 1 != rest.len() {
                return false;
            }
            let time_part = sub_chars(rest.as_slice(), 0, z);
            assert(time_part@ =~= rest@.take(z as int));
            time_chars(time_part.as_slice())
        },
        None => match find_last2(rest.as_slice(), '+', '+') {
            Some(q) => {
                if q < 8 {
                    return false;
                }
                let time_part = sub_chars(rest.as_slice(), 0, q);
                let offset_part = sub_chars(rest.as_slice(), q, rest.len());
                assert(time_part@ =~= rest@.take(q as int));
                assert(offset_part@ =~= rest@.skip(q as int));
                time_chars(time_part.as_slice()) && offset_chars(offset_part.as_slice())
            },
            None => {
                let tail = sub_chars(rest.as_slice(), 8, rest.len());
                assert(tail@ =~= rest@.skip(8));
                match find_last2(tail.as_slice(), '-', '-') {
                    Some(m) => {
                        let time_part = sub_chars(rest.as_slice(), 0, 8 + m);
                        let offset_part = sub_chars(rest.as_slice(), 8 + m, rest.len());
                        assert(time_part@ =~= rest@.take(8 + m));
                        assert(offset_part@ =~= rest@.skip(8 + m));
                        time_chars(time_part.as_slice()) && offset_chars(offset_part.as_slice())
                    },
                    None => false,
                }
            },
        },
    }
}

// ---------------------------------------------------------------------------
// email and hostname
// ---------------------------------------------------------------------------

/// Exactly one `@`, with a non-empty local part before it and a non-empty
/// domain after it that contains a `.`.
pub open spec fn spec_email(s: Seq<char>) -> bool {
    match crate::text::first_index_of(s, '@') {
        None => false,
        Some(i) => {
            let local = s.take(i);
            let domain = s.skip(i + 1);
            local.len() > 0 && domain.len() > 0 && domain.contains('.') && !domain.contains('@')
        },
    }
}

fn contains_char(s: &[char], c: char) -> (r: bool)
    ensures
        r == s@.contains(c),
{
    match find_char(s, c) {
        Some(i) => {
            assert(s@[i as int] == c);
            true
        },
        None => false,
    }
}

/// Checks the e-mail shape.
pub fn is_valid_email(value: &str) -> (r: bool)
    ensures
        r == spec_email(value@),
{
    let v = chars_of(value);
    let n = v.len();
    match find_char(v.as_slice(), '@') {
        None => false,
        Some(i) => {
            assert(i < n);
            let local = sub_chars(v.as_slice(), 0, i);
            let domain = sub_chars(v.as_slice(), i + 1, v.len());
            assert(local@ =~= value@.take(i as int));
            assert(domain@ =~= value@.skip(i + 1));
            local.len() > 0 && domain.len() > 0 && contains_char(domain.as_slice(), '.')
                && !contains_char(domain.as_slice(), '@')
        },
    }
}

/// One dot-separated label of a host name.
pub open spec fn spec_label(l: Seq<char>) -> bool {
    &&& 1 <= l.len() <= 63
    &&& l[0] != '-'
    &&& l.last() != '-'
    &&& forall|i: int| 0 <= i < l.len() ==> (is_alnum(#[trigger] l[i]) || l[i] == '-')
}

/// 1 to 253 characters; dot-separated labels of 1 to 63 letters, digits and
/// hyphens, none starting or ending with a hyphen.
pub open spec fn spec_hostname(s: Seq<char>) -> bool {
    let labels = split(s, '.');
    1 <= s.len() <= 253 && forall|i: int| 0 <= i < labels.len() ==> spec_label(#[trigger] labels[i])
}

/// A character a host name label may hold (RFC 1123): an ASCII letter, an
/// ASCII digit or a hyphen.
pub open spec fn host_label_char(c: char) -> bool {
    ('a' <= c && c <= 'z') || ('A' <= c && c <= 'Z') || ('0' <= c && c <= '9') || c == '-'
}

/// A host name label as RFC 1123 writes it: 1 to 63 label characters, not
/// starting or ending with a hyphen (inner hyphens are fine).
pub open spec fn rfc_host_label(l: Seq<char>) -> bool {
    &&& 1 <= l.len() <= 63
    &&& l[0] != '-'
    &&& l[l.len() - 1] != '-'
    &&& forall|i: int| 0 <= i < l.len() ==> host_label_char(#[trigger] l[i])
}

/// A value with format `hostname` passes validation whenever it is labels of
/// letters, digits and inner hyphens (such as `my-api.example.com`) joined
/// by dots, 253 characters at most, and the parameter lists no enum values.
pub proof fn law_hostname_labels_accepted(
    func_name: Seq<char>,
    param: ParamDef,
    labels: Seq<Seq<char>>,
    addr: AddressChecks,
)
    requires
        labels.len() >= 1,
        forall|i: int| 0 <= i < labels.len() ==> rfc_host_label(#[trigger] labels[i]),
        join(labels, "."@).len() <= 253,
        param.format matches Some(f) && f@ == "hostname"@,
        param.enum_values is None,
    ensures
        param_check(func_name, param, join(labels, "."@), addr) == Ok::<(), Seq<char>>(()),
{
    reveal_strlit(".");
    reveal_strlit("hostname");
    reveal_strlit("uuid");
    reveal_strlit("date-time");
    reveal_strlit("date");
    reveal_strlit("email");
    reveal_strlit("uri");
    reveal_strlit("url");
    reveal_strlit("ipv4");
    reveal_strlit("ipv6");
    reveal_strlit("int32");
    reveal_strlit("int64");
    assert("."@ =~= seq!['.']);
    assert forall|i: int| 0 <= i < labels.len() implies !(#[trigger] labels[i]).contains('.') by {
        let l = labels[i];
        assert(rfc_host_label(l));
        if l.contains('.') {
            let k = choose|k: int| 0 <= k < l.len() && l[k] == '.';
            assert(host_label_char(l[k]));
        }
    }
    lemma_split_join(labels, '.');
    let s = join(labels, "."@);
    assert(split(s, '.') == labels);
    assert(s.len() >= 1) by {
        if s.len() == 0 {
            assert(s =~= Seq::<char>::empty());
            assert(split(s, '.') == seq![Seq::<char>::empty()]);
            assert(labels[0].len() == 0);
        }
    }
    assert forall|i: int| 0 <= i < labels.len() implies spec_label(#[trigger] labels[i]) by {
        let l = labels[i];
        assert(rfc_host_label(l));
        assert(l.last() == l[l.len() - 1]);
        assert forall|j: int| 0 <= j < l.len() implies (is_alnum(#[trigger] l[j]) || l[j] == '-') by {
            assert(host_label_char(l[j]));
        }
    }
    assert(spec_hostname(s));
    let f = param.format->0;
    assert(f@ == "hostname"@);
    assert(format_holds(f@, s, addr));
}

/// The `hostname` format accepts exactly the values of 1 to 253 characters
/// whose dot-separated pieces are all RFC 1123 labels (letters, digits and
/// inner hyphens); any other value is refused with the format error.
pub proof fn law_hostname_format(func_name: Seq<char>, param: ParamDef, value: Seq<char>, addr: AddressChecks)
    requires
        param.format matches Some(f) && f@ == "hostname"@,
        param.enum_values is None,
    ensures
        param_check(func_name, param, value, addr) is Ok <==> (1 <= value.len() <= 253 && forall|i: int|
            0 <= i < split(value, '.').len() ==> rfc_host_label(#[trigger] split(value, '.')[i])),
        param_check(func_name, param, value, addr) is Err ==> param_check(func_name, param, value, addr)
            == Err::<(), Seq<char>>(format_error(func_name, param.name@, "hostname"@, value)),
{
    reveal_strlit("hostname");
    reveal_strlit("uuid");
    reveal_strlit("date-time");
    reveal_strlit("date");
    reveal_strlit("email");
    reveal_strlit("uri");
    reveal_strlit("url");
    reveal_strlit("ipv4");
    reveal_strlit("ipv6");
    reveal_strlit("int32");
    reveal_strlit("int64");
    let pieces = split(value, '.');
    assert forall|i: int| 0 <= i < pieces.len() implies (spec_label(#[trigger] pieces[i])
        <==> rfc_host_label(pieces[i])) by {
        let l = pieces[i];
        if l.len() >= 1 {
            assert(l.last() == l[l.len() - 1]);
        }
        assert(forall|j: int| 0 <= j < l.len() ==> ((is_alnum(#[trigger] l[j]) || l[j] == '-')
            <==> host_label_char(l[j])));
    }
    let f = param.format->0;
    assert(f@ == "hostname"@);
    assert(f@.len() == 8);
    assert("uuid"@.len() == 4 && "date-time"@.len() == 9 && "date"@.len() == 4);
    assert("email"@.len() == 5 && "uri"@.len() == 3 && "url"@.len() == 3);
    assert("ipv4"@.len() == 4 && "ipv6"@.len() == 4);
    assert(format_holds(f@, value, addr) == spec_hostname(value));
}

fn label_ok(l: &[char]) -> (r: bool)
    ensures
        r == spec_label(l@),
{
    if l.len() == 0 || l.len() > 63 {
        return false;
    }
    if l[0] == '-' || l[l.len() - 1] == '-' {
        return false;
    }
    let mut i: usize = 0;
    while i < l.len()
        invariant
            i <= l@.len(),
            forall|k: int| 0 <= k < i ==> (is_alnum(#[trigger] l@[k]) || l@[k] == '-'),
        decreases l@.len() - i,
    {
        let c = l[i];
        if !(('0' <= c && c <= '9') || ('a' <= c && c <= 'z') || ('A' <= c && c <= 'Z') || c
            == '-') {
            return false;
        }
        i = i + 1;
    }
    true
}

/// Checks the host name shape.
pub fn is_valid_hostname(value: &str) -> (r: bool)
    ensures
        r == spec_hostname(value@),
{
    let v = chars_of(value);
    if v.len() == 0 || v.len() > 253 {
        return false;
    }
    let labels = split_chars(v.as_slice(), '.');
    let mut i: usize = 0;
    while i < labels.len()
        invariant
            i <= labels@.len(),
            labels@.len() == split(value@, '.').len(),
            forall|k: int| 0 <= k < labels@.len() ==> #[trigger] labels@[k]@ == split(value@, '.')[k],
            forall|k: int| 0 <= k < i ==> spec_label(#[trigger] split(value@, '.')[k]),
        decreases labels@.len() - i,
    {
        if !label_ok(labels[i].as_slice()) {
            assert(labels@[i as int]@ == split(value@, '.')[i as int]);
            return false;
        }
        i = i + 1;
    }
    true
}

// ---------------------------------------------------------------------------
// Integers
// ---------------------------------------------------------------------------

/// The value of a string of decimal digits.
pub open spec fn digits_value(s: Seq<char>) -> int
    decreases s.len(),
{
    if s.len() == 0 {
        0
    } else {
        digits_value(s.drop_last()) * 10 + (s.last() as int - '0' as int)
    }
}

/// What `i64::from_str` returns: an optional `+` or `-` followed by one or
/// more decimal digits, whose value fits in `i64`.
pub open spec fn parse_i64(s: Seq<char>) -> Option<int> {
    let signed = s.len() > 0 && (s[0] == '+' || s[0] == '-');
    let neg = s.len() > 0 && s[0] == '-';
    let ds = if signed {
        s.drop_first()
    } else {
        s
    };
    if ds.len() == 0 || !all_digits(ds) {
        None
    } else {
        let v = if neg {
            -digits_value(ds)
        } else {
            digits_value(ds)
        };
        if i64::MIN <= v <= i64::MAX {
            Some(v)
        } else {
            None
        }
    }
}

/// A longer run of digits is worth at least as much as its prefix.
proof fn lemma_digits_monotone(s: Seq<char>, k: int)
    requires
        0 <= k <= s.len(),
        all_digits(s),
    ensures
        digits_value(s.take(k)) <= digits_value(s),
        digits_value(s.take(k)) >= 0,
    decreases s.len() - k,
{
    if k < s.len() {
        lemma_digits_monotone(s, k + 1);
        assert(s.take(k + 1).drop_last() =~= s.take(k));
        assert(is_digit(s[k]));
    } else {
        assert(s.take(k) =~= s);
    }
    lemma_digits_nonneg(s.take(k));
}

proof fn lemma_digits_nonneg(s: Seq<char>)
    requires
        all_digits(s),
    ensures
        digits_value(s) >= 0,
    decreases s.len(),
{
    if s.len() > 0 {
        assert(all_digits(s.drop_last()));
        lemma_digits_nonneg(s.drop_last());
        assert(is_digit(s.last()));
    }
}

/// Parses a decimal `i64` as `str::parse::<i64>` does.
#[verifier::spinoff_prover]
#[verifier::rlimit(40)]
pub fn parse_i64_chars(v: &[char]) -> (r: Option<i64>)
    ensures
        match r {
            Some(n) => parse_i64(v@) == Some(n as int),
            None => parse_i64(v@) is None,
        },
{
    let signed = v.len() > 0 && (v[0] == '+' || v[0] == '-');
    let neg = v.len() > 0 && v[0] == '-';
    let start: usize = if signed {
        1
    } else {
        0
    };
    let ds = sub_chars(v, start, v.len());
    assert(ds@ =~= (if signed {
        v@.drop_first()
    } else {
        v@
    }));
    if ds.len() == 0 || !digits_only(ds.as_slice()) {
        return None;
    }
    let limit: u128 = 9223372036854775808;
    let mut acc: u128 = 0;
    let mut i: usize = 0;
    while i < ds.len()
        invariant
            i <= ds@.len(),
            all_digits(ds@),
            acc as int == digits_value(ds@.take(i as int)),
            acc <= limit,
            limit == 9223372036854775808,
            ds@.len() > 0,
            signed == (v@.len() > 0 && (v@[0] == '+' || v@[0] == '-')),
            neg == (v@.len() > 0 && v@[0] == '-'),
            ds@ == (if signed {
                v@.drop_first()
            } else {
                v@
            }),
        decreases ds@.len() - i,
    {
        assert(ds@.take(i + 1).drop_last() =~= ds@.take(i as int));
        assert(is_digit(ds@[i as int]));
        let d = (ds[i] as u32 - '0' as u32) as u128;
        assert(d as int == ds@[i as int] as int - '0' as int);
        acc = acc * 10 + d;
        i = i + 1;
        assert(acc as int == digits_value(ds@.take(i as int)));
        if acc > limit {
            proof {
                lemma_digits_monotone(ds@, i as int);
                assert(digits_value(ds@) > limit);
            }
            return None;
        }
    }
    assert(ds@.take(ds@.len() as int) =~= ds@);
    if neg {
        if acc == limit {
            Some(i64::MIN)
        } else {
            Some(-(acc as i64))
        }
    } else {
        if acc == limit {
            None
        } else {
            Some(acc as i64)
        }
    }
}

/// An integer within the `i32` range.
pub open spec fn spec_int32(s: Seq<char>) -> bool {
    match parse_i64(s) {
        Some(n) => i32::MIN <= n <= i32::MAX,
        None => false,
    }
}

/// Checks that the value parses as an `i64` within the `i32` range.
pub fn is_valid_int32(value: &str) -> (r: bool)
    ensures
        r == spec_int32(value@),
{
    let v = chars_of(value);
    match parse_i64_chars(v.as_slice()) {
        Some(n) => -2147483648 <= n && n <= 2147483647,
        None => false,
    }
}

/// Checks that the value parses as an `i64`.
pub fn is_valid_int64(value: &str) -> (r: bool)
    ensures
        r == (parse_i64(value@) is Some),
{
    let v = chars_of(value);
    parse_i64_chars(v.as_slice()).is_some()
}

// ---------------------------------------------------------------------------
// URIs and network addresses
// ---------------------------------------------------------------------------

/// Whether `url::Url::parse` accepts the text as an absolute URL.
pub uninterp spec fn spec_url_parses(s: Seq<char>) -> bool;

/// Calls `url::Url::parse` on the text and reports whether it succeeded;
/// the contract names the outcome and says nothing more of it.
#[verifier::external_body]
fn url_parses(s: &str) -> (r: bool)
    ensures
        r == spec_url_parses(s@),
{
    url::Url::parse(s).is_ok()
}

/// Checks that the text is an absolute URL.
pub fn is_valid_uri(value: &str) -> (r: bool)
    ensures
        r == spec_url_parses(value@),
{
    url_parses(value)
}

/// What the standard library's IPv4 and IPv6 address parsers said of a
/// value (`str::parse::<Ipv4Addr>()` and `str::parse::<Ipv6Addr>()`
/// succeeded). The network module of the standard library stays outside this
/// crate, so its callers parse and hand the verdicts in.
#[derive(Debug, Clone, Copy, PartialEq, Eq)]
pub struct AddressChecks {
    pub ipv4: bool,
    pub ipv6: bool,
}

// ---------------------------------------------------------------------------
// Formats and enum values
// ---------------------------------------------------------------------------

/// Whether `value` has format `format`; unknown formats accept every value.
pub open spec fn format_holds(format: Seq<char>, value: Seq<char>, addr: AddressChecks) -> bool {
    if format == "uuid"@ {
        spec_uuid(value)
    } else if format == "date-time"@ {
        spec_date_time(value)
    } else if format == "date"@ {
        spec_date(value)
    } else if format == "email"@ {
        spec_email(value)
    } else if format == "uri"@ || format == "url"@ {
        spec_url_parses(value)
    } else if format == "ipv4"@ {
        addr.ipv4
    } else if format == "ipv6"@ {
        addr.ipv6
    } else if format == "hostname"@ {
        spec_hostname(value)
    } else if format == "int32"@ {
        spec_int32(value)
    } else if format == "int64"@ {
        parse_i64(value) is Some
    } else {
        true
    }
}

/// The message of a format violation.
pub open spec fn format_error(func_name: Seq<char>, param_name: Seq<char>, format: Seq<char>,
    value: Seq<char>) -> Seq<char> {
    "parameter '"@ + param_name + "' for '"@ + func_name + "': expected "@ + format
        + " format, got '"@ + value + "'"@
}

/// The message of an enum violation.
pub open spec fn enum_error(func_name: Seq<char>, param_name: Seq<char>, allowed: Seq<Seq<char>>,
    value: Seq<char>) -> Seq<char> {
    "parameter '"@ + param_name + "' for '"@ + func_name + "': expected one of ["@ + join(
        allowed,
        ", "@,
    ) + "], got '"@ + value + "'"@
}

/// Checks a value against a format.
pub fn validate_format(func_name: &str, param_name: &str, format: &str, value: &str,
    addr: AddressChecks) -> (r: Result<(), String>)
    ensures
        match r {
            Ok(()) => format_holds(format@, value@, addr),
            Err(msg) => !format_holds(format@, value@, addr) && msg@ == format_error(
                func_name@,
                param_name@,
                format@,
                value@,
            ),
        },
{
    let valid = if str_eq(format, "uuid") {
        is_valid_uuid(value)
    } else if str_eq(format, "date-time") {
        is_valid_date_time(value)
    } else if str_eq(format, "date") {
        is_valid_date(value)
    } else if str_eq(format, "email") {
        is_valid_email(value)
    } else if str_eq(format, "uri") || str_eq(format, "url") {
        is_valid_uri(value)
    } else if str_eq(format, "ipv4") {
        addr.ipv4
    } else if str_eq(format, "ipv6") {
        addr.ipv6
    } else if str_eq(format, "hostname") {
        is_valid_hostname(value)
    } else if str_eq(format, "int32") {
        is_valid_int32(value)
    } else if str_eq(format, "int64") {
        is_valid_int64(value)
    } else {
        true
    };
    if valid {
        Ok(())
    } else {
        let mut msg = owned("parameter '");
        push_str(&mut msg, param_name);
        push_str(&mut msg, "' for '");
        push_str(&mut msg, func_name);
        push_str(&mut msg, "': expected ");
        push_str(&mut msg, format);
        push_str(&mut msg, " format, got '");
        push_str(&mut msg, value);
        push_str(&mut msg, "'");
        Err(msg)
    }
}

/// Whether `value` is one of the allowed values.
pub open spec fn enum_holds(allowed: Option<Vec<String>>, value: Seq<char>) -> bool {
    match allowed {
        Some(a) => views(a@).contains(value),
        None => true,
    }
}

/// The outcome of validating a parameter value: the enum values are checked
/// first, then the format.
pub open spec fn param_check(func_name: Seq<char>, param: ParamDef, value: Seq<char>,
    addr: AddressChecks) -> Result<(), Seq<char>> {
    if !enum_holds(param.enum_values, value) {
        Err(enum_error(func_name, param.name@, views(param.enum_values->0@), value))
    } else {
        match param.format {
            Some(f) => if format_holds(f@, value, addr) {
                Ok(())
            } else {
                Err(format_error(func_name, param.name@, f@, value))
            },
            None => Ok(()),
        }
    }
}

fn is_allowed(allowed: &Vec<String>, value: &str) -> (r: bool)
    ensures
        r == views(allowed@).contains(value@),
{
    let mut i: usize = 0;
    while i < allowed.len()
        invariant
            i <= allowed@.len(),
            forall|k: int| 0 <= k < i ==> allowed@[k]@ != value@,
        decreases allowed@.len() - i,
    {
        if str_eq(allowed[i].as_str(), value) {
            assert(views(allowed@)[i as int] == value@);
            return true;
        }
        i = i + 1;
    }
    assert forall|k: int| 0 <= k < views(allowed@).len() implies views(allowed@)[k] != value@ by {
        assert(views(allowed@)[k] == allowed@[k]@);
    }
    false
}

/// Validates a parameter value against its enum values and its format.
/// `addr` holds the address parsers' verdicts on `value`.
pub fn validate_param_value(func_name: &str, param: &ParamDef, value: &str, addr: AddressChecks)
    -> (r: Result<(), String>)
    ensures
        match r {
            Ok(()) => param_check(func_name@, *param, value@, addr) == Ok::<(), Seq<char>>(()),
            Err(msg) => param_check(func_name@, *param, value@, addr) == Err::<(), Seq<char>>(
                msg@,
            ),
        },
{
    match &param.enum_values {
        Some(allowed) => {
            if !is_allowed(allowed, value) {
                let joined = join_strings(allowed, ", ");
                let mut msg = owned("parameter '");
                push_str(&mut msg, param.name.as_str());
                push_str(&mut msg, "' for '");
                push_str(&mut msg, func_name);
                push_str(&mut msg, "': expected one of [");
                push_str(&mut msg, joined.as_str());
                push_str(&mut msg, "], got '");
                push_str(&mut msg, value);
                push_str(&mut msg, "'");
                return Err(msg);
            }
        },
        None => {},
    }
    match &param.format {
        Some(f) => validate_format(func_name, param.name.as_str(), f.as_str(), value, addr),
        None => Ok(()),
    }
}

} // verus!
