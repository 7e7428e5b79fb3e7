//! Text helpers shared by the message codec, the notices and the UI:
//! decimal formatting and parsing, Unicode white-space trimming, and the
//! standard-library text conversions the codec relies on.

use vstd::prelude::*;
use vstd::utf8::{decode_utf8, encode_scalar, encode_utf8, is_ascii_chars, valid_utf8};

verus! {

/// The ASCII digit character for `d` (for `d < 10`).
pub open spec fn digit_char(d: nat) -> char {
    if d == 0 { '0' }
    else if d == 1 { '1' }
    else if d == 2 { '2' }
    else if d == 3 { '3' }
    else if d == 4 { '4' }
    else if d == 5 { '5' }
    else if d == 6 { '6' }
    else if d == 7 { '7' }
    else if d == 8 { '8' }
    else { '9' }
}

/// The decimal representation of `n`, without sign or leading zeros.
pub open spec fn decimal(n: nat) -> Seq<char>
    decreases n,
{
    if n < 10 {
        seq![digit_char(n)]
    } else {
        decimal(n / 10).push(digit_char(n % 10))
    }
}

fn digit_str(d: u32) -> (r: &'static str)
    requires
        d < 10,
    ensures
        r@ == seq![digit_char(d as nat)],
{
    proof {
        reveal_strlit("0");
        reveal_strlit("1");
        reveal_strlit("2");
        reveal_strlit("3");
        reveal_strlit("4");
        reveal_strlit("5");
        reveal_strlit("6");
        reveal_strlit("7");
        reveal_strlit("8");
        reveal_strlit("9");
    }
    let r = if d == 0 { "0" }
    else if d == 1 { "1" }
    else if d == 2 { "2" }
    else if d == 3 { "3" }
    else if d == 4 { "4" }
    else if d == 5 { "5" }
    else if d == 6 { "6" }
    else if d == 7 { "7" }
    else if d == 8 { "8" }
    else { "9" };
    assert(r@ =~= seq![digit_char(d as nat)]);
    r
}

/// Appends the decimal representation of `n` to `s`.
pub fn push_decimal(s: &mut String, n: u32)
    ensures
        final(s)@ == old(s)@ + decimal(n as nat),
    decreases n,
{
    if n >= 10 {
        push_decimal(s, n / 10);
    }
    s.append(digit_str(n % 10));
    assert(decimal(n as nat) == if n < 10 { seq![digit_char(n as nat)] } else {
        decimal((n / 10) as nat).push(digit_char((n % 10) as nat))
    });
}

/// Unicode white space: the characters with the `White_Space` property,
/// which is what `char::is_whitespace` tests.
pub open spec fn is_white_space(c: char) -> bool {
    let u = c as u32;
    ||| 0x09 <= u <= 0x0d
    ||| u == 0x20
    ||| u == 0x85
    ||| u == 0xa0
    ||| u == 0x1680
    ||| 0x2000 <= u <= 0x200a
    ||| u == 0x2028
    ||| u == 0x2029
    ||| u == 0x202f
    ||| u == 0x205f
    ||| u == 0x3000
}

pub fn char_is_white_space(c: char) -> (b: bool)
    ensures
        b == is_white_space(c),
{
    let u = c as u32;
    (0x09 <= u && u <= 0x0d) || u == 0x20 || u == 0x85 || u == 0xa0 || u == 0x1680 || (0x2000
        <= u && u <= 0x200a) || u == 0x2028 || u == 0x2029 || u == 0x202f || u == 0x205f || u
        == 0x3000
}

/// `s` without its leading white space.
pub open spec fn trim_start(s: Seq<char>) -> Seq<char>
    decreases s.len(),
{
    if s.len() > 0 && is_white_space(s[0]) {
        trim_start(s.drop_first())
    } else {
        s
    }
}

/// `s` without its trailing white space.
pub open spec fn trim_end(s: Seq<char>) -> Seq<char>
    decreases s.len(),
{
    if s.len() > 0 && is_white_space(s.last()) {
        trim_end(s.drop_last())
    } else {
        s
    }
}

/// `s` without leading and trailing white space, as `str::trim` gives it.
pub open spec fn trimmed(s: Seq<char>) -> Seq<char> {
    trim_end(trim_start(s))
}

/// Removes leading and trailing white space.
pub fn trim(s: &str) -> (r: &str)
    ensures
        r@ == trimmed(s@),
{
    let len = s.unicode_len();
    let mut i: usize = 0;
    assert(s@.subrange(0, len as int) =~= s@);
    while i < len && char_is_white_space(s.get_char(i))
        invariant
            i <= len,
            len == s@.len(),
            trim_start(s@) == trim_start(s@.subrange(i as int, len as int)),
        decreases len - i,
    {
        assert(s@.subrange(i as int, len as int).drop_first() =~= s@.subrange(i + 1, len as int));
        i = i + 1;
    }
    assert(trim_start(s@) == s@.subrange(i as int, len as int));
    let mut j: usize = len;
    while j > i && char_is_white_space(s.get_char(j - 1))
        invariant
            i <= j <= len,
            len == s@.len(),
            trim_start(s@) == s@.subrange(i as int, len as int),
            trimmed(s@) == trim_end(s@.subrange(i as int, j as int)),
        decreases j,
    {
        assert(s@.subrange(i as int, j as int).drop_last() =~= s@.subrange(i as int, j - 1));
        j = j - 1;
    }
    s.substring_char(i, j)
}

pub open spec fn is_digit(c: char) -> bool {
    0x30 <= (c as u32) <= 0x39
}

pub open spec fn digit_value(c: char) -> nat {
    ((c as u32) - 0x30) as nat
}

pub open spec fn all_digits(s: Seq<char>) -> bool {
    forall|i: int| 0 <= i < s.len() ==> #[trigger] is_digit(s[i])
}

/// The number that a string of decimal digits denotes.
pub open spec fn digits_value(s: Seq<char>) -> nat
    decreases s.len(),
{
    if s.len() == 0 {
        0
    } else {
        digits_value(s.drop_last()) * 10 + digit_value(s.last())
    }
}

/// The digits of an unsigned number: one leading `+` is allowed when
/// something follows it.
pub open spec fn unsigned_digits(s: Seq<char>) -> Seq<char> {
    if s.len() > 1 && s[0] == '+' {
        s.drop_first()
    } else {
        s
    }
}

/// What `str::parse::<u32>` gives: the value of a non-empty string of decimal
/// digits (after an optional `+`), when it fits in a `u32`.
pub open spec fn parse_u32_spec(s: Seq<char>) -> Option<u32> {
    let d = unsigned_digits(s);
    if d.len() > 0 && all_digits(d) && digits_value(d) <= u32::MAX {
        Some(digits_value(d) as u32)
    } else {
        None
    }
}

proof fn lemma_digits_value_prefix(s: Seq<char>, k: int)
    requires
        0 <= k <= s.len(),
    ensures
        digits_value(s.subrange(0, k)) <= digits_value(s),
    decreases s.len(),
{
    if k < s.len() {
        lemma_digits_value_prefix(s.drop_last(), k);
        assert(s.drop_last().subrange(0, k) =~= s.subrange(0, k));
    } else {
        assert(s.subrange(0, k) =~= s);
    }
}

/// Parses an unsigned 32-bit decimal number as `str::parse::<u32>` does.
pub fn parse_u32(s: &str) -> (r: Option<u32>)
    ensures
        r == parse_u32_spec(s@),
{
    let len = s.unicode_len();
    let start: usize = if len > 1 && s.get_char(0) == '+' {
        1
    } else {
        0
    };
    let ghost d = unsigned_digits(s@);
    assert(d =~= s@.subrange(start as int, len as int));
    if start == len {
        return None;
    }
    let mut acc: u64 = 0;
    let mut i: usize = start;
    while i < len
        invariant
            start <= i <= len,
            len == s@.len(),
            d == s@.subrange(start as int, len as int),
            d == unsigned_digits(s@),
            acc == digits_value(d.subrange(0, i - start)),
            acc <= u32::MAX,
            all_digits(d.subrange(0, i - start)),
        decreases len - i,
    {
        let c = s.get_char(i);
        let u = c as u32;
        if u < 0x30 || u > 0x39 {
            assert(d[i - start] == c);
            assert(!is_digit(d[i - start]));
            assert(!all_digits(d));
            return None;
        }
        let ghost prefix = d.subrange(0, i + 1 - start);
        assert(prefix.drop_last() =~= d.subrange(0, i - start));
        assert(prefix.last() == c);
        acc = acc * 10 + (u - 0x30) as u64;
        assert(acc == digits_value(prefix));
        if acc > 0xffff_ffff {
            proof {
                lemma_digits_value_prefix(d, i + 1 - start);
            }
            return None;
        }
        i = i + 1;
        assert(all_digits(d.subrange(0, i - start))) by {
            assert forall|k: int| 0 <= k < i - start implies #[trigger] is_digit(
                d.subrange(0, i - start)[k],
            ) by {
                if k < i - 1 - start {
                    assert(d.subrange(0, i - start)[k] == d.subrange(0, i - 1 - start)[k]);
                }
            }
        }
    }
    assert(d.subrange(0, len - start) =~= d);
    Some(acc as u32)
}

/// What `str::to_lowercase` returns for a string.
pub uninterp spec fn lowercase(s: Seq<char>) -> Seq<char>;

/// `s` with the ASCII capitals `A`..`Z` replaced by their small letters.
pub open spec fn ascii_lowercase(s: Seq<char>) -> Seq<char> {
    Seq::new(
        s.len(),
        |i: int|
            if 0x41 <= (s[i] as u32) <= 0x5a {
                ((s[i] as u32) + 32) as char
            } else {
                s[i]
            },
    )
}

/// What `str::to_lowercase` gives: on ASCII text the capitals `A`..`Z`
/// lowered, otherwise the named result `lowercase`.
pub open spec fn lowercased(s: Seq<char>) -> Seq<char> {
    if is_ascii_chars(s) {
        ascii_lowercase(s)
    } else {
        lowercase(s)
    }
}

/// Calls `str::to_lowercase`. Its result is named `lowercase`. The Unicode
/// lower-case mapping that it applies maps the ASCII capitals `A`..`Z` to
/// `a`..`z` and leaves every other ASCII character as it is, so on ASCII
/// text the result is stated; on other text only the name is.
#[verifier::external_body]
pub(crate) fn to_lowercase(s: &str) -> (r: String)
    ensures
        r@ == lowercase(s@),
        is_ascii_chars(s@) ==> r@ == ascii_lowercase(s@),
        r@ == lowercased(s@),
{
    s.to_lowercase()
}

/// What `String::from_utf8_lossy` returns for a byte string.
pub uninterp spec fn lossy_utf8(bytes: Seq<u8>) -> Seq<char>;

/// What `String::from_utf8_lossy` gives: the decoded text of valid UTF-8,
/// otherwise the named result `lossy_utf8`.
pub open spec fn decoded_lossy(bytes: Seq<u8>) -> Seq<char> {
    if valid_utf8(bytes) {
        decode_utf8(bytes)
    } else {
        lossy_utf8(bytes)
    }
}

/// Calls `String::from_utf8_lossy`. Its result is named `lossy_utf8`; on valid
/// UTF-8 it is the decoded text, as the standard library documents. Which
/// replacement characters stand for invalid sequences is not stated.
#[verifier::external_body]
pub(crate) fn decode_utf8_lossy(bytes: &[u8]) -> (s: String)
    ensures
        s@ == lossy_utf8(bytes@),
        valid_utf8(bytes@) ==> s@ == decode_utf8(bytes@),
        s@ == decoded_lossy(bytes@),
{
    String::from_utf8_lossy(bytes).into_owned()
}

/// Calls `char::to_string`: the one-character string holding `c`.
#[verifier::external_body]
pub(crate) fn char_to_string(c: char) -> (s: String)
    ensures
        s@ == seq![c],
{
    c.to_string()
}


/// Whether two strings hold the same characters.
pub fn str_eq(a: &str, b: &str) -> (r: bool)
    ensures
        r == (a@ == b@),
{
    let x = a.to_owned();
    let y = b.to_owned();
    x == y
}

/// The UTF-8 encoding of a concatenation is the concatenation of the
/// encodings.
pub proof fn lemma_encode_utf8_concat(a: Seq<char>, b: Seq<char>)
    ensures
        encode_utf8(a + b) == encode_utf8(a) + encode_utf8(b),
    decreases a.len(),
{
    if a.len() == 0 {
        assert(a + b =~= b);
        assert(encode_utf8(a) =~= Seq::<u8>::empty());
        assert(encode_utf8(a) + encode_utf8(b) =~= encode_utf8(b));
    } else {
        lemma_encode_utf8_concat(a.drop_first(), b);
        assert((a + b).drop_first() =~= a.drop_first() + b);
        assert((a + b)[0] == a[0]);
        assert(encode_utf8(a + b) =~= encode_scalar((a + b)[0] as u32) + encode_utf8((a + b).drop_first()));
        assert(encode_utf8(a) + encode_utf8(b) =~= encode_scalar(a[0] as u32) + (encode_utf8(a.drop_first()) + encode_utf8(b)));
    }
}


/// Every character of `s` is white space.
pub open spec fn all_white_space(s: Seq<char>) -> bool {
    forall|k: int| 0 <= k < s.len() ==> #[trigger] is_white_space(s[k])
}

pub(crate) proof fn lemma_trim_end_drop_suffix(a: Seq<char>, b: Seq<char>)
    requires
        all_white_space(b),
    ensures
        trim_end(a + b) == trim_end(a),
    decreases b.len(),
{
    if b.len() > 0 {
        assert((a + b).last() == b.last());
        assert((a + b).drop_last() =~= a + b.drop_last());
        assert(all_white_space(b.drop_last())) by {
            assert forall|k: int| 0 <= k < b.drop_last().len() implies #[trigger] is_white_space(
                b.drop_last()[k],
            ) by {
                assert(b.drop_last()[k] == b[k]);
            }
        }
        lemma_trim_end_drop_suffix(a, b.drop_last());
    } else {
        assert(a + b =~= a);
    }
}

pub(crate) proof fn lemma_trim_end_keep(a: Seq<char>, b: Seq<char>)
    requires
        b.len() > 0,
        !is_white_space(b.last()),
    ensures
        trim_end(a + b) == a + b,
{
    assert((a + b).last() == b.last());
}

pub(crate) proof fn lemma_trim_start_drop_prefix(a: Seq<char>, b: Seq<char>)
    requires
        all_white_space(a),
    ensures
        trim_start(a + b) == trim_start(b),
    decreases a.len(),
{
    if a.len() > 0 {
        assert((a + b)[0] == a[0]);
        assert((a + b).drop_first() =~= a.drop_first() + b);
        assert(all_white_space(a.drop_first())) by {
            assert forall|k: int| 0 <= k < a.drop_first().len() implies #[trigger] is_white_space(
                a.drop_first()[k],
            ) by {
                assert(a.drop_first()[k] == a[k + 1]);
            }
        }
        lemma_trim_start_drop_prefix(a.drop_first(), b);
    } else {
        assert(a + b =~= b);
    }
}

pub(crate) proof fn lemma_trim_start_keep(a: Seq<char>, b: Seq<char>)
    requires
        a.len() > 0,
        !is_white_space(a[0]),
    ensures
        trim_start(a + b) == a + b,
{
    assert((a + b)[0] == a[0]);
}

/// `trim_end` keeps a prefix and drops a white-space suffix, and what it
/// keeps does not end in white space.
pub(crate) proof fn lemma_trim_end_split(c: Seq<char>)
    ensures
        trim_end(c).len() <= c.len(),
        trim_end(c) == c.subrange(0, trim_end(c).len() as int),
        all_white_space(c.subrange(trim_end(c).len() as int, c.len() as int)),
        trim_end(c).len() > 0 ==> !is_white_space(trim_end(c).last()),
    decreases c.len(),
{
    if c.len() > 0 && is_white_space(c.last()) {
        lemma_trim_end_split(c.drop_last());
        let k = trim_end(c).len() as int;
        assert(c.drop_last().subrange(0, k) =~= c.subrange(0, k));
        assert forall|j: int| 0 <= j < c.subrange(k, c.len() as int).len() implies #[trigger] is_white_space(
            c.subrange(k, c.len() as int)[j],
        ) by {
            if k + j < c.len() - 1 {
                assert(c.subrange(k, c.len() as int)[j] == c.drop_last().subrange(
                    k,
                    c.len() - 1,
                )[j]);
            }
        }
    } else {
        assert(c.subrange(0, c.len() as int) =~= c);
    }
}

/// `trim_start` keeps a suffix and drops a white-space prefix, and what it
/// keeps does not start with white space.
pub(crate) proof fn lemma_trim_start_split(c: Seq<char>)
    ensures
        trim_start(c).len() <= c.len(),
        trim_start(c) == c.subrange(c.len() - trim_start(c).len(), c.len() as int),
        all_white_space(c.subrange(0, c.len() - trim_start(c).len())),
        trim_start(c).len() > 0 ==> !is_white_space(trim_start(c)[0]),
    decreases c.len(),
{
    if c.len() > 0 && is_white_space(c[0]) {
        lemma_trim_start_split(c.drop_first());
        let k = c.len() - trim_start(c).len();
        assert(c.drop_first().subrange(k - 1, c.len() - 1) =~= c.subrange(k, c.len() as int));
        assert forall|j: int| 0 <= j < k implies #[trigger] is_white_space(
            c.subrange(0, k)[j],
        ) by {
            if j > 0 {
                assert(c.subrange(0, k)[j] == c.drop_first().subrange(0, k - 1)[j - 1]);
            }
        }
    } else {
        assert(c.subrange(0, c.len() as int) =~= c);
        assert(c.subrange(0, 0).len() == 0);
    }
}

/// Trimming ignores trailing white space that was removed beforehand.
pub(crate) proof fn lemma_trimmed_of_trim_end(c: Seq<char>)
    ensures
        trim_end(trim_start(trim_end(c))) == trimmed(c),
{
    let a = trim_end(c);
    lemma_trim_end_split(c);
    let b = c.subrange(a.len() as int, c.len() as int);
    assert(c =~= a + b);
    let m = trim_start(a);
    lemma_trim_start_split(a);
    let p = a.subrange(0, a.len() - m.len());
    assert(a =~= p + m);
    assert(p + m + b =~= p + (m + b));
    lemma_trim_start_drop_prefix(p, m + b);
    if m.len() > 0 {
        lemma_trim_start_keep(m, b);
        lemma_trim_end_drop_suffix(m, b);
    } else {
        assert(m + b =~= b);
        assert(b =~= b + Seq::<char>::empty());
        lemma_trim_start_drop_prefix(b, Seq::<char>::empty());
        lemma_trim_start_drop_prefix(p, Seq::<char>::empty());
        assert(p =~= p + Seq::<char>::empty());
    }
}

/// The index of the first `c` in `t`, if there is one.
pub open spec fn find_char(t: Seq<char>, c: char) -> Option<int>
    decreases t.len(),
{
    if t.len() == 0 {
        None
    } else if t[0] == c {
        Some(0)
    } else {
        match find_char(t.drop_first(), c) {
            Some(i) => Some(i + 1),
            None => None,
        }
    }
}

pub(crate) proof fn lemma_find_char_found(t: Seq<char>, c: char, i: int)
    requires
        0 <= i < t.len(),
        t[i] == c,
        forall|k: int| 0 <= k < i ==> t[k] != c,
    ensures
        find_char(t, c) == Some(i),
    decreases t.len(),
{
    if i > 0 {
        assert forall|k: int| 0 <= k < i - 1 implies t.drop_first()[k] != c by {
            assert(t.drop_first()[k] == t[k + 1]);
        }
        lemma_find_char_found(t.drop_first(), c, i - 1);
    }
}

pub(crate) proof fn lemma_find_char_absent(t: Seq<char>, c: char)
    requires
        forall|k: int| 0 <= k < t.len() ==> t[k] != c,
    ensures
        find_char(t, c) is None,
    decreases t.len(),
{
    if t.len() > 0 {
        assert forall|k: int| 0 <= k < t.len() - 1 implies t.drop_first()[k] != c by {
            assert(t.drop_first()[k] == t[k + 1]);
        }
        lemma_find_char_absent(t.drop_first(), c);
    }
}

/// The index of the first `c` in `s`, if there is one.
pub fn find_char_index(s: &str, c: char) -> (r: Option<usize>)
    ensures
        match r {
            Some(i) => find_char(s@, c) == Some(i as int),
            None => find_char(s@, c) is None,
        },
        r matches Some(i) ==> i < s@.len() && s@[i as int] == c,
{
    let len = s.unicode_len();
    let mut i: usize = 0;
    while i < len && s.get_char(i) != c
        invariant
            i <= len,
            len == s@.len(),
            forall|k: int| 0 <= k < i ==> s@[k] != c,
        decreases len - i,
    {
        i = i + 1;
    }
    if i == len {
        proof {
            lemma_find_char_absent(s@, c);
        }
        None
    } else {
        proof {
            lemma_find_char_found(s@, c, i as int);
        }
        Some(i)
    }
}

/// `s` begins with `p`.
pub open spec fn has_prefix(s: Seq<char>, p: Seq<char>) -> bool {
    p.len() <= s.len() && s.subrange(0, p.len() as int) == p
}

/// Whether `s` begins with `p`.
pub fn starts_with(s: &str, p: &str) -> (b: bool)
    ensures
        b == has_prefix(s@, p@),
{
    let n = s.unicode_len();
    let m = p.unicode_len();
    if m > n {
        return false;
    }
    str_eq(s.substring_char(0, m), p)
}

proof fn lemma_digit_char(d: nat)
    requires
        d < 10,
    ensures
        is_digit(digit_char(d)),
        digit_value(digit_char(d)) == d,
{
}

/// The decimal representation of `n` is a non-empty string of digits that
/// denotes `n`.
pub proof fn lemma_decimal_digits(n: nat)
    ensures
        decimal(n).len() > 0,
        all_digits(decimal(n)),
        digits_value(decimal(n)) == n,
    decreases n,
{
    if n < 10 {
        lemma_digit_char(n);
        assert(decimal(n).drop_last() =~= Seq::<char>::empty());
        assert(digits_value(decimal(n)) == digits_value(decimal(n).drop_last()) * 10 + digit_value(decimal(n).last()));
    } else {
        lemma_decimal_digits(n / 10);
        lemma_digit_char(n % 10);
        let d = decimal(n);
        assert(d.drop_last() =~= decimal(n / 10));
        assert(d.last() == digit_char(n % 10));
        assert(digits_value(d) == digits_value(decimal(n / 10)) * 10 + digit_value(d.last()));
        assert((n / 10) * 10 + n % 10 == n);
        assert forall|k: int| 0 <= k < d.len() implies #[trigger] is_digit(d[k]) by {
            if k < d.len() - 1 {
                assert(d[k] == decimal(n / 10)[k]);
            }
        }
    }
}

/// Parsing the decimal representation of a `u32` gives the number back.
pub proof fn lemma_decimal_parse_roundtrip(n: u32)
    ensures
        parse_u32_spec(decimal(n as nat)) == Some(n),
{
    lemma_decimal_digits(n as nat);
    let d = decimal(n as nat);
    assert(is_digit(d[0]));
    assert(unsigned_digits(d) == d);
}

/// A string of digits holds no other character, such as `c`.
pub proof fn lemma_digits_lack(s: Seq<char>, c: char)
    requires
        all_digits(s),
        !is_digit(c),
    ensures
        find_char(s, c) is None,
{
    assert forall|k: int| 0 <= k < s.len() implies s[k] != c by {
        assert(is_digit(s[k]));
    }
    lemma_find_char_absent(s, c);
}

/// Trailing white space does not change the trimmed text.
pub proof fn lemma_trimmed_ws_suffix(c: Seq<char>, w: Seq<char>)
    requires
        all_white_space(w),
    ensures
        trimmed(c + w) == trimmed(c),
{
    lemma_trimmed_of_trim_end(c + w);
    lemma_trimmed_of_trim_end(c);
    lemma_trim_end_drop_suffix(c, w);
}

} // verus!
