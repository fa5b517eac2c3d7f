//! Character and string helpers shared by the domain and application layers.

use vstd::prelude::*;
use vstd::string::*;

verus! {

/// The characters that carry the Unicode `White_Space` property.
pub open spec fn is_white_space(c: char) -> bool {
    ||| ('\u{9}' <= c && c <= '\u{d}')
    ||| c == ' '
    ||| c == '\u{85}'
    ||| c == '\u{a0}'
    ||| c == '\u{1680}'
    ||| ('\u{2000}' <= c && c <= '\u{200a}')
    ||| c == '\u{2028}'
    ||| c == '\u{2029}'
    ||| c == '\u{202f}'
    ||| c == '\u{205f}'
    ||| c == '\u{3000}'
}

/// A text is blank when every character is white space (the empty text included).
pub open spec fn is_blank(s: Seq<char>) -> bool {
    forall|i: int| 0 <= i < s.len() ==> #[trigger] is_white_space(s[i])
}

pub fn char_is_white_space(c: char) -> (r: bool)
    ensures
        r == is_white_space(c),
{
    ('\u{9}' <= c && c <= '\u{d}') || c == ' ' || c == '\u{85}' || c == '\u{a0}' || c == '\u{1680}'
        || ('\u{2000}' <= c && c <= '\u{200a}') || c == '\u{2028}' || c == '\u{2029}' || c
        == '\u{202f}' || c == '\u{205f}' || c == '\u{3000}'
}

/// Whether `s` holds nothing but white space.
pub fn str_is_blank(s: &str) -> (r: bool)
    ensures
        r == is_blank(s@),
{
    let n = s.unicode_len();
    let mut i: usize = 0;
    while i < n
        invariant
            n == s@.len(),
            i <= n,
            forall|j: int| 0 <= j < i ==> #[trigger] is_white_space(s@[j]),
        decreases n - i,
    {
        if !char_is_white_space(s.get_char(i)) {
            return false;
        }
        i = i + 1;
    }
    true
}


/// `i` is the position of the first `'_'` in `s`.
pub open spec fn is_first_underscore(s: Seq<char>, i: int) -> bool {
    &&& 0 <= i < s.len()
    &&& s[i] == '_'
    &&& forall|j: int| 0 <= j < i ==> s[j] != '_'
}

/// The position of the first `'_'` in `s`, if there is one.
pub open spec fn first_underscore(s: Seq<char>) -> Option<int> {
    if exists|i: int| is_first_underscore(s, i) {
        Some(choose|i: int| is_first_underscore(s, i))
    } else {
        None
    }
}

/// `s` split around its first `'_'`, as `str::split_once('_')` does.
pub open spec fn split_once_underscore(s: Seq<char>) -> Option<(Seq<char>, Seq<char>)> {
    match first_underscore(s) {
        Some(i) => Some((s.subrange(0, i), s.subrange(i + 1, s.len() as int))),
        None => None,
    }
}

pub proof fn lemma_first_underscore_unique(s: Seq<char>, i: int, j: int)
    requires
        is_first_underscore(s, i),
        is_first_underscore(s, j),
    ensures
        i == j,
{
    if i < j {
        assert(s[i] != '_');
    } else if j < i {
        assert(s[j] != '_');
    }
}

pub proof fn lemma_first_underscore_is(s: Seq<char>, i: int)
    requires
        is_first_underscore(s, i),
    ensures
        first_underscore(s) == Some(i),
{
    let k = choose|k: int| is_first_underscore(s, k);
    lemma_first_underscore_unique(s, i, k);
}

/// Finds the first `'_'` in `s`.
pub fn find_underscore(s: &str) -> (r: Option<usize>)
    ensures
        r matches Some(i) ==> first_underscore(s@) == Some(i as int) && is_first_underscore(
            s@,
            i as int,
        ),
        r is None ==> first_underscore(s@) is None && forall|j: int|
            0 <= j < s@.len() ==> s@[j] != '_',
{
    let n = s.unicode_len();
    let mut i: usize = 0;
    while i < n
        invariant
            n == s@.len(),
            i <= n,
            forall|j: int| 0 <= j < i ==> s@[j] != '_',
        decreases n - i,
    {
        if s.get_char(i) == '_' {
            proof {
                lemma_first_underscore_is(s@, i as int);
            }
            return Some(i);
        }
        i = i + 1;
    }
    assert(!exists|k: int| is_first_underscore(s@, k));
    None
}

/// Whether `prefix` is a prefix of `s`.
pub open spec fn seq_starts_with(s: Seq<char>, prefix: Seq<char>) -> bool {
    prefix.len() <= s.len() && s.subrange(0, prefix.len() as int) == prefix
}

pub fn str_starts_with(s: &str, prefix: &str) -> (r: bool)
    ensures
        r == seq_starts_with(s@, prefix@),
{
    let n = s.unicode_len();
    let m = prefix.unicode_len();
    if m > n {
        return false;
    }
    let mut i: usize = 0;
    while i < m
        invariant
            n == s@.len(),
            m == prefix@.len(),
            m <= n,
            i <= m,
            forall|j: int| 0 <= j < i ==> s@[j] == prefix@[j],
        decreases m - i,
    {
        if s.get_char(i) != prefix.get_char(i) {
            assert(s@.subrange(0, m as int)[i as int] != prefix@[i as int]);
            return false;
        }
        i = i + 1;
    }
    assert(s@.subrange(0, m as int) =~= prefix@);
    true
}

pub fn str_eq(a: &str, b: &str) -> (r: bool)
    ensures
        r == (a@ == b@),
{
    let n = a.unicode_len();
    let m = b.unicode_len();
    if n != m {
        return false;
    }
    let mut i: usize = 0;
    while i < n
        invariant
            n == a@.len(),
            m == b@.len(),
            n == m,
            i <= n,
            forall|j: int| 0 <= j < i ==> a@[j] == b@[j],
        decreases n - i,
    {
        if a.get_char(i) != b.get_char(i) {
            return false;
        }
        i = i + 1;
    }
    assert(a@ =~= b@);
    true
}


/// The number of bytes in the UTF-8 encoding of `s`, the value `str::len` reports.
pub open spec fn utf8_len(s: Seq<char>) -> int {
    vstd::utf8::encode_utf8(s).len() as int
}

pub open spec fn char_utf8_width(c: char) -> int {
    let v = c as u32;
    if v <= 0x7F {
        1
    } else if v <= 0x7FF {
        2
    } else if v <= 0xFFFF {
        3
    } else {
        4
    }
}

proof fn lemma_encode_scalar_len(c: char)
    ensures
        vstd::utf8::encode_scalar(c as u32).len() == char_utf8_width(c),
{
    broadcast use vstd::utf8::char_is_scalar;
    assert(vstd::utf8::is_scalar(c as u32));
}

pub proof fn lemma_utf8_len_push(s: Seq<char>, c: char)
    ensures
        utf8_len(s.push(c)) == utf8_len(s) + char_utf8_width(c),
    decreases s.len(),
{
    if s.len() == 0 {
        lemma_encode_scalar_len(c);
        assert(s.push(c).drop_first() =~= Seq::<char>::empty());
        assert(vstd::utf8::encode_utf8(Seq::<char>::empty()) =~= Seq::<u8>::empty());
    } else {
        lemma_utf8_len_push(s.drop_first(), c);
        assert(s.push(c).drop_first() =~= s.drop_first().push(c));
        assert(s.push(c)[0] == s[0]);
    }
}

/// The UTF-8 byte length of `s`, or `None` once it exceeds `limit`.
pub fn utf8_len_up_to(s: &str, limit: usize) -> (r: Option<usize>)
    ensures
        r matches Some(n) ==> n == utf8_len(s@) && n <= limit,
        r is None ==> utf8_len(s@) > limit,
{
    let n = s.unicode_len();
    let mut i: usize = 0;
    let mut total: usize = 0;
    assert(s@.subrange(0, 0) =~= Seq::<char>::empty());
    assert(vstd::utf8::encode_utf8(Seq::<char>::empty()) =~= Seq::<u8>::empty());
    while i < n
        invariant
            n == s@.len(),
            i <= n,
            total == utf8_len(s@.subrange(0, i as int)),
            total <= limit,
        decreases n - i,
    {
        let c = s.get_char(i);
        let v = c as u32;
        let w: usize = if v <= 0x7F {
            1
        } else if v <= 0x7FF {
            2
        } else if v <= 0xFFFF {
            3
        } else {
            4
        };
        proof {
            lemma_utf8_len_push(s@.subrange(0, i as int), c);
            assert(s@.subrange(0, i as int).push(c) =~= s@.subrange(0, i + 1));
        }
        if w > limit - total {
            proof {
                lemma_utf8_len_prefix_le(s@, i + 1);
            }
            return None;
        }
        total = total + w;
        i = i + 1;
    }
    assert(s@.subrange(0, n as int) =~= s@);
    Some(total)
}

/// The byte length of a prefix never exceeds that of the whole text.
pub proof fn lemma_utf8_len_prefix_le(s: Seq<char>, k: int)
    requires
        0 <= k <= s.len(),
    ensures
        utf8_len(s.subrange(0, k)) <= utf8_len(s),
    decreases s.len() - k,
{
    if k < s.len() {
        lemma_utf8_len_prefix_le(s, k + 1);
        lemma_utf8_len_push(s.subrange(0, k), s[k]);
        assert(s.subrange(0, k).push(s[k]) =~= s.subrange(0, k + 1));
    } else {
        assert(s.subrange(0, k) =~= s);
    }
}


/// Appends `c` to `s` with `String::push`.
#[verifier::external_body]
pub fn string_push(s: &mut String, c: char)
    ensures
        final(s)@ == old(s)@.push(c),
{
    s.push(c);
}

pub open spec fn is_ascii_alphanumeric(c: char) -> bool {
    ('0' <= c && c <= '9') || ('a' <= c && c <= 'z') || ('A' <= c && c <= 'Z')
}

pub open spec fn ascii_lower(c: char) -> char {
    if 'A' <= c && c <= 'Z' {
        ((c as u8) + 32) as char
    } else {
        c
    }
}

pub fn char_is_ascii_alphanumeric(c: char) -> (r: bool)
    ensures
        r == is_ascii_alphanumeric(c),
{
    ('0' <= c && c <= '9') || ('a' <= c && c <= 'z') || ('A' <= c && c <= 'Z')
}

pub fn char_to_ascii_lowercase(c: char) -> (r: char)
    ensures
        r == ascii_lower(c),
        'A' <= c <= 'Z' ==> 'a' <= r <= 'z',
{
    if 'A' <= c && c <= 'Z' {
        let b = (c as u8) + 32;
        b as char
    } else {
        c
    }
}

// ---------------------------------------------------------------------------
// Decimal numbers

pub open spec fn digit_char(d: int) -> char {
    (48 + d) as char
}

/// The decimal digits of `k`.
pub open spec fn decimal(k: nat) -> Seq<char>
    decreases k,
{
    if k < 10 {
        seq![digit_char(k as int)]
    } else {
        decimal(k / 10).push(digit_char((k % 10) as int))
    }
}

pub proof fn lemma_decimal_nonempty(k: nat)
    ensures
        decimal(k).len() >= 1,
        k >= 10 ==> decimal(k).len() >= 2,
    decreases k,
{
    if k >= 10 {
        lemma_decimal_nonempty(k / 10);
    }
}

pub proof fn lemma_decimal_injective(a: nat, b: nat)
    requires
        decimal(a) == decimal(b),
    ensures
        a == b,
    decreases a,
{
    lemma_decimal_nonempty(a);
    lemma_decimal_nonempty(b);
    if a < 10 && b < 10 {
        assert(decimal(a)[0] == digit_char(a as int));
        assert(decimal(b)[0] == digit_char(b as int));
    } else if a >= 10 && b >= 10 {
        assert(decimal(a).last() == digit_char((a % 10) as int));
        assert(decimal(b).last() == digit_char((b % 10) as int));
        assert(decimal(a).drop_last() =~= decimal(a / 10));
        assert(decimal(b).drop_last() =~= decimal(b / 10));
        lemma_decimal_injective(a / 10, b / 10);
    }
}

/// Appends the decimal digits of `k`.
pub fn push_decimal(s: &mut String, k: u128)
    ensures
        final(s)@ == old(s)@ + decimal(k as nat),
    decreases k,
{
    if k >= 10 {
        push_decimal(s, k / 10);
    }
    let d = (k % 10) as u8;
    let c = (48u8 + d) as char;
    assert(c == digit_char(d as int));
    string_push(s, c);
    assert(decimal(k as nat) =~= if k < 10 { seq![digit_char(k as int)] } else { decimal((k / 10) as nat).push(digit_char((k % 10) as int)) });
}


} // verus!
