//! Character classification and small string helpers used by the lexer
//! and the diagnostics.

use vstd::prelude::*;
use vstd::string::StrSliceExecFns;

verus! {

/// Whether `c` has the Unicode `White_Space` property, as
/// `char::is_whitespace` decides it.
pub uninterp spec fn char_is_whitespace(c: char) -> bool;

/// Whether `c` is a Unicode letter, as `char::is_alphabetic` decides it.
pub uninterp spec fn char_is_alphabetic(c: char) -> bool;

/// Whether `c` is a Unicode letter or number, as `char::is_alphanumeric`
/// decides it.
pub uninterp spec fn char_is_alphanumeric(c: char) -> bool;

/// Relies on char::is_whitespace: true exactly for characters with the
/// Unicode `White_Space` property, whose ASCII members are tab through
/// carriage return (0x09..=0x0D) and space.
#[verifier::external_body]
pub fn is_whitespace_char(c: char) -> (r: bool)
    ensures
        r == char_is_whitespace(c),
        (c as u32) < 128 ==> r == (c == ' ' || (c as u32) >= 9 && (c as u32) <= 13),
{
    c.is_whitespace()
}

/// Relies on char::is_alphabetic: true exactly for Unicode letters,
/// whose ASCII members are `a..=z` and `A..=Z`.
#[verifier::external_body]
pub fn is_alphabetic_char(c: char) -> (r: bool)
    ensures
        r == char_is_alphabetic(c),
        (c as u32) < 128 ==> r == ((c as u32) >= 97 && (c as u32) <= 122 || (c as u32) >= 65
            && (c as u32) <= 90),
{
    c.is_alphabetic()
}

/// Relies on char::is_alphanumeric: true exactly for Unicode letters and
/// numeric characters, whose ASCII members are the letters and `0..=9`.
#[verifier::external_body]
pub fn is_alphanumeric_char(c: char) -> (r: bool)
    ensures
        r == char_is_alphanumeric(c),
        (c as u32) < 128 ==> r == ((c as u32) >= 97 && (c as u32) <= 122 || (c as u32) >= 65
            && (c as u32) <= 90 || (c as u32) >= 48 && (c as u32) <= 57),
        char_is_alphabetic(c) ==> r,
{
    c.is_alphanumeric()
}

/// Relies on String::push: appends one character to the string.
#[verifier::external_body]
pub fn push_char(s: &mut String, c: char)
    ensures
        final(s)@ == old(s)@ + seq![c],
{
    s.push(c);
}

/// The one-character string holding `c`.
pub fn char_to_string(c: char) -> (s: String)
    ensures
        s@ == seq![c],
{
    let mut s = String::new();
    push_char(&mut s, c);
    proof {
        assert(s@ =~= seq![c]);
    }
    s
}

/// Whether `c` is a decimal digit, as `char::is_digit(10)` decides it.
pub open spec fn spec_is_digit10(c: char) -> bool {
    (c as u32) >= 48 && (c as u32) <= 57
}

/// A decimal digit is `0..=9`.
pub fn is_digit10(c: char) -> (r: bool)
    ensures
        r == spec_is_digit10(c),
{
    (c as u32) >= 48 && (c as u32) <= 57
}

/// The characters of `s`, in order, as a vector.
pub fn str_to_chars(s: &str) -> (v: Vec<char>)
    ensures
        v@ == s@,
{
    let n = s.unicode_len();
    let mut v: Vec<char> = Vec::new();
    let mut i: usize = 0;
    while i < n
        invariant
            n == s@.len(),
            i <= n,
            v@ == s@.subrange(0, i as int),
        decreases n - i,
    {
        v.push(s.get_char(i));
        i = i + 1;
        proof {
            assert(v@ =~= s@.subrange(0, i as int));
        }
    }
    proof {
        assert(v@ =~= s@);
    }
    v
}

/// Whether two string slices hold the same characters.
pub fn str_eq(a: &str, b: &str) -> (r: bool)
    ensures
        r == (a@ == b@),
{
    let na = a.unicode_len();
    let nb = b.unicode_len();
    if na != nb {
        proof {
            assert(a@ != b@);
        }
        return false;
    }
    let mut i: usize = 0;
    while i < na
        invariant
            na == a@.len(),
            na == b@.len(),
            i <= na,
            forall|j: int| 0 <= j < i ==> a@[j] == b@[j],
        decreases na - i,
    {
        if a.get_char(i) != b.get_char(i) {
            proof {
                assert(a@[i as int] != b@[i as int]);
            }
            return false;
        }
        i = i + 1;
    }
    proof {
        assert(a@ =~= b@);
    }
    true
}

/// The decimal rendering of `n`, most significant digit first.
pub open spec fn spec_decimal(n: nat) -> Seq<char>
    decreases n,
{
    if n < 10 {
        seq![spec_digit_char(n)]
    } else {
        spec_decimal(n / 10) + seq![spec_digit_char(n % 10)]
    }
}

/// The character for one decimal digit.
pub open spec fn spec_digit_char(d: nat) -> char {
    if d == 0 {
        '0'
    } else if d == 1 {
        '1'
    } else if d == 2 {
        '2'
    } else if d == 3 {
        '3'
    } else if d == 4 {
        '4'
    } else if d == 5 {
        '5'
    } else if d == 6 {
        '6'
    } else if d == 7 {
        '7'
    } else if d == 8 {
        '8'
    } else {
        '9'
    }
}

fn digit_char(d: usize) -> (c: char)
    requires
        d < 10,
    ensures
        c == spec_digit_char(d as nat),
{
    if d == 0 {
        '0'
    } else if d == 1 {
        '1'
    } else if d == 2 {
        '2'
    } else if d == 3 {
        '3'
    } else if d == 4 {
        '4'
    } else if d == 5 {
        '5'
    } else if d == 6 {
        '6'
    } else if d == 7 {
        '7'
    } else if d == 8 {
        '8'
    } else {
        '9'
    }
}

/// Append the decimal rendering of `n` to `out`.
pub fn append_decimal(out: &mut String, n: usize)
    ensures
        final(out)@ == old(out)@ + spec_decimal(n as nat),
{
    let mut digits: Vec<char> = Vec::new();
    let mut m: usize = n;
    proof {
        assert(spec_decimal(n as nat) =~= spec_decimal(m as nat) + digits@.reverse());
    }
    while m >= 10
        invariant
            spec_decimal(n as nat) == spec_decimal(m as nat) + digits@.reverse(),
        decreases m,
    {
        let ghost pre = digits@;
        let ghost cd = spec_digit_char((m % 10) as nat);
        let d = m % 10;
        digits.push(digit_char(d));
        proof {
            assert(digits@.reverse() =~= seq![cd] + pre.reverse());
            assert(spec_decimal(m as nat) == spec_decimal((m / 10) as nat) + seq![cd]);
            assert(spec_decimal((m / 10) as nat) + digits@.reverse() =~= spec_decimal(m as nat)
                + pre.reverse());
        }
        m = m / 10;
    }
    push_char(out, digit_char(m));
    proof {
        assert(spec_decimal(m as nat) == seq![spec_digit_char(m as nat)]);
        assert(out@ =~= old(out)@ + spec_decimal(m as nat) + digits@.reverse().take(0));
    }
    let ghost low = m as nat;
    let mut i: usize = digits.len();
    while i > 0
        invariant
            i <= digits@.len(),
            out@ == old(out)@ + spec_decimal(low) + digits@.reverse().take(
                digits@.len() - i,
            ),
            spec_decimal(n as nat) == spec_decimal(low) + digits@.reverse(),
        decreases i,
    {
        i = i - 1;
        push_char(out, digits[i]);
        proof {
            assert(digits@.reverse()[digits@.len() - (i + 1)] == digits@[i as int]);
            assert(digits@.reverse().take(digits@.len() - i as int) =~= digits@.reverse().take(
                digits@.len() - (i + 1),
            ) + seq![digits@[i as int]]);
            assert(out@ =~= old(out)@ + spec_decimal(low) + digits@.reverse().take(
                digits@.len() - i as int,
            ));
        }
    }
    proof {
        assert(digits@.reverse().take(digits@.len() - 0) =~= digits@.reverse());
        assert(out@ =~= old(out)@ + spec_decimal(n as nat));
    }
}

} // verus!
