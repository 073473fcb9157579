//! Character classification and small text helpers shared by the lexer and
//! the error-message builders.

use vstd::prelude::*;

verus! {

/// ASCII decimal digit.
pub open spec fn is_digit(c: char) -> bool {
    '0' <= c && c <= '9'
}

/// ASCII octal digit.
pub open spec fn is_octal_digit(c: char) -> bool {
    '0' <= c && c <= '7'
}

/// ASCII hexadecimal digit.
pub open spec fn is_hex_digit(c: char) -> bool {
    ('0' <= c && c <= '9') || ('a' <= c && c <= 'f') || ('A' <= c && c <= 'F')
}

/// Numeric value of a decimal digit.
pub open spec fn digit_val(c: char) -> int {
    c as int - '0' as int
}

/// Numeric value of a hexadecimal digit.
pub open spec fn hex_digit_val(c: char) -> int {
    if '0' <= c && c <= '9' {
        c as int - '0' as int
    } else if 'a' <= c && c <= 'f' {
        c as int - 'a' as int + 10
    } else {
        c as int - 'A' as int + 10
    }
}

pub fn exec_is_digit(c: char) -> (r: bool)
    ensures
        r == is_digit(c),
{
    '0' <= c && c <= '9'
}

pub fn exec_is_octal_digit(c: char) -> (r: bool)
    ensures
        r == is_octal_digit(c),
{
    '0' <= c && c <= '7'
}

pub fn exec_is_hex_digit(c: char) -> (r: bool)
    ensures
        r == is_hex_digit(c),
{
    ('0' <= c && c <= '9') || ('a' <= c && c <= 'f') || ('A' <= c && c <= 'F')
}

/// ASCII upper-casing of a single character; anything but a lower-case ASCII
/// letter is left alone. Keywords are ASCII, so this is all the
/// case-insensitive keyword match needs.
pub open spec fn ascii_upper(c: char) -> char {
    if 'a' <= c && c <= 'z' {
        (((c as u32) - 32) as u8) as char
    } else {
        c
    }
}

pub fn exec_ascii_upper(c: char) -> (r: char)
    ensures
        r == ascii_upper(c),
{
    if 'a' <= c && c <= 'z' {
        (((c as u32) - 32) as u8) as char
    } else {
        c
    }
}

/// The decimal digits of `n`, most significant first.
pub open spec fn dec_digits(n: nat) -> Seq<char>
    decreases n,
{
    let last = digit_char((n % 10) as nat);
    if n < 10 {
        seq![last]
    } else {
        dec_digits(n / 10) + seq![last]
    }
}

/// The character of a single decimal digit.
pub open spec fn digit_char(d: nat) -> char {
    ((48 + d) as u8) as char
}

/// The usual decimal rendering of a signed integer.
pub open spec fn dec_str_i64(n: int) -> Seq<char> {
    if n < 0 {
        seq!['-'] + dec_digits((-n) as nat)
    } else {
        dec_digits(n as nat)
    }
}

/// Digits of `n` appended to `out`, most significant first.
fn push_dec_digits(n: u64, out: &mut Vec<char>)
    ensures
        final(out)@ == old(out)@ + dec_digits(n as nat),
    decreases n,
{
    let d: u64 = n % 10;
    let c: char = ((48 + d) as u8) as char;
    if n < 10 {
        out.push(c);
    } else {
        push_dec_digits(n / 10, out);
        out.push(c);
    }
    proof {
        assert(c == digit_char((n % 10) as nat));
        assert(out@ =~= old(out)@ + dec_digits(n as nat));
    }
}

/// Decimal rendering of an unsigned integer.
pub fn u64_to_string(n: u64) -> (r: String)
    ensures
        r@ == dec_digits(n as nat),
{
    let mut v: Vec<char> = Vec::new();
    push_dec_digits(n, &mut v);
    chars_to_string(&v)
}

/// Decimal rendering of a signed integer.
pub fn i64_to_string(n: i64) -> (r: String)
    ensures
        r@ == dec_str_i64(n as int),
{
    let mut v: Vec<char> = Vec::new();
    if n < 0 {
        v.push('-');
        let mag: u64 = ((-(n as i128)) as u64);
        push_dec_digits(mag, &mut v);
        proof {
            assert(v@ =~= dec_str_i64(n as int));
        }
    } else {
        push_dec_digits(n as u64, &mut v);
    }
    chars_to_string(&v)
}

pub uninterp spec fn char_is_space_beyond_ascii(c: char) -> bool;

pub uninterp spec fn char_is_alpha_beyond_ascii(c: char) -> bool;

pub uninterp spec fn char_is_alnum_beyond_ascii(c: char) -> bool;

/// Unicode White_Space. On ASCII it is exactly tab, line feed, vertical tab,
/// form feed, carriage return and space; beyond ASCII, only the wrapper's
/// underlying call decides.
pub open spec fn char_is_space(c: char) -> bool {
    if (c as u32) < 128 {
        c == '\t' || c == '\n' || (c as u32) == 11 || (c as u32) == 12 || c == '\r' || c == ' '
    } else {
        char_is_space_beyond_ascii(c)
    }
}

/// Unicode Alphabetic. On ASCII it is exactly the letters; beyond ASCII,
/// only the wrapper's underlying call decides.
pub open spec fn char_is_alpha(c: char) -> bool {
    if (c as u32) < 128 {
        ('a' <= c && c <= 'z') || ('A' <= c && c <= 'Z')
    } else {
        char_is_alpha_beyond_ascii(c)
    }
}

/// Unicode alphanumeric (Alphabetic or numeric). On ASCII it is exactly the
/// letters and the decimal digits; beyond ASCII, only the wrapper's
/// underlying call decides.
pub open spec fn char_is_alnum(c: char) -> bool {
    if (c as u32) < 128 {
        ('a' <= c && c <= 'z') || ('A' <= c && c <= 'Z') || ('0' <= c && c <= '9')
    } else {
        char_is_alnum_beyond_ascii(c)
    }
}

/// Relies on `char::is_whitespace` (the Unicode White_Space property, which
/// on ASCII holds of exactly tab, line feed, vertical tab, form feed,
/// carriage return and space).
#[verifier::external_body]
pub(crate) fn exec_char_is_space(c: char) -> (r: bool)
    ensures
        r == char_is_space(c),
        (c as u32) >= 128 ==> r == char_is_space_beyond_ascii(c),
{
    c.is_whitespace()
}

/// Relies on `char::is_alphabetic` (the Unicode Alphabetic property, which
/// on ASCII holds of exactly the letters); an alphabetic character is
/// alphanumeric, which gives the last clause.
#[verifier::external_body]
pub(crate) fn exec_char_is_alpha(c: char) -> (r: bool)
    ensures
        r == char_is_alpha(c),
        (c as u32) >= 128 ==> r == char_is_alpha_beyond_ascii(c),
        r ==> char_is_alnum(c),
{
    c.is_alphabetic()
}

/// Relies on `char::is_alphanumeric` (Unicode Alphabetic or numeric, which
/// on ASCII holds of exactly the letters and the decimal digits).
#[verifier::external_body]
pub(crate) fn exec_char_is_alnum(c: char) -> (r: bool)
    ensures
        r == char_is_alnum(c),
        (c as u32) >= 128 ==> r == char_is_alnum_beyond_ascii(c),
{
    c.is_alphanumeric()
}

/// A character that may start an identifier.
pub open spec fn is_ident_start(c: char) -> bool {
    char_is_alpha(c) || c == '_' || c == '$'
}

/// A character that may continue an identifier.
pub open spec fn is_ident_cont(c: char) -> bool {
    char_is_alnum(c) || c == '_' || c == '$'
}

/// Negation of a signed 64-bit integer with wraparound: the minimum value is
/// its own negation, as in a two's-complement machine negate.
pub open spec fn wrap_neg_i64(n: i64) -> i64 {
    if n == i64::MIN {
        i64::MIN
    } else {
        (-(n as int)) as i64
    }
}

pub fn neg_i64(n: i64) -> (r: i64)
    ensures
        r == wrap_neg_i64(n),
{
    if n == i64::MIN {
        i64::MIN
    } else {
        -n
    }
}

/// Strict lexicographic order on character sequences, by code point: the
/// order `String`'s own comparison gives.
pub open spec fn chars_lt(a: Seq<char>, b: Seq<char>) -> bool
    decreases a.len(),
{
    if b.len() == 0 {
        false
    } else if a.len() == 0 {
        true
    } else if a[0] != b[0] {
        a[0] < b[0]
    } else {
        chars_lt(a.drop_first(), b.drop_first())
    }
}

/// Lexicographic order on string slices.
pub fn str_lt(a: &str, b: &str) -> (r: bool)
    ensures
        r == chars_lt(a@, b@),
{
    let an = a.unicode_len();
    let bn = b.unicode_len();
    let mut i: usize = 0;
    proof {
        assert(a@.skip(0) =~= a@);
        assert(b@.skip(0) =~= b@);
    }
    loop
        invariant
            i <= an,
            i <= bn,
            an == a@.len(),
            bn == b@.len(),
            chars_lt(a@, b@) == chars_lt(a@.skip(i as int), b@.skip(i as int)),
        decreases an - i,
    {
        if i >= bn {
            return false;
        }
        if i >= an {
            return true;
        }
        let ca = a.get_char(i);
        let cb = b.get_char(i);
        if ca != cb {
            return ca < cb;
        }
        proof {
            assert(a@.skip(i as int).drop_first() =~= a@.skip(i + 1));
            assert(b@.skip(i as int).drop_first() =~= b@.skip(i + 1));
        }
        i = i + 1;
    }
}

/// Equality of string slices, by their character sequences.
pub fn str_eq(a: &str, b: &str) -> (r: bool)
    ensures
        r == (a@ == b@),
{
    let an = a.unicode_len();
    let bn = b.unicode_len();
    if an != bn {
        return false;
    }
    let mut i: usize = 0;
    while i < an
        invariant
            i <= an,
            an == a@.len(),
            an == b@.len(),
            forall|j: int| 0 <= j < i ==> a@[j] == b@[j],
        decreases an - i,
    {
        if a.get_char(i) != b.get_char(i) {
            return false;
        }
        i = i + 1;
    }
    proof {
        assert(a@ =~= b@);
    }
    true
}

/// Relies on `String`'s `FromIterator<char>`: collects the characters into a
/// string whose view is the same sequence.
#[verifier::external_body]
pub(crate) fn chars_to_string(v: &Vec<char>) -> (r: String)
    ensures
        r@ == v@,
{
    v.iter().collect()
}

/// A one-character string.
pub fn char_string(c: char) -> (r: String)
    ensures
        r@ == seq![c],
{
    let mut v: Vec<char> = Vec::new();
    v.push(c);
    proof {
        assert(v@ =~= seq![c]);
    }
    chars_to_string(&v)
}

/// The characters of a string slice, gathered into a vector.
pub fn str_to_chars(s: &str) -> (r: Vec<char>)
    ensures
        r@ == s@,
{
    let n = s.unicode_len();
    let mut v: Vec<char> = Vec::new();
    let mut i: usize = 0;
    while i < n
        invariant
            i <= n,
            n == s@.len(),
            v@ == s@.subrange(0, i as int),
        decreases n - i,
    {
        v.push(s.get_char(i));
        proof {
            assert(v@ =~= s@.subrange(0, i + 1 as int));
        }
        i = i + 1;
    }
    proof {
        assert(v@ =~= s@);
    }
    v
}

} // verus!
