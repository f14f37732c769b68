//! The numeric grammar a recognized field's text must satisfy, and its
//! verified checker.

use vstd::prelude::*;
use vstd::string::StrSliceExecFns;

verus! {

/// One decimal digit.
pub open spec fn is_digit(c: char) -> bool {
    '0' <= c && c <= '9'
}

/// A leading sign.
pub open spec fn is_sign(c: char) -> bool {
    c == '+' || c == '-'
}

/// The marker that opens an exponent.
pub open spec fn is_exp_marker(c: char) -> bool {
    c == 'e' || c == 'E'
}

/// The numeric grammar of a field value:
///
///   Number   ::= Sign? Mantissa Exponent?
///   Mantissa ::= Digit+ | Digit+ '.' Digit* | Digit* '.' Digit+
///   Exponent ::= ('e' | 'E') Sign? Digit+
///   Sign     ::= '+' | '-'
///
/// Nothing else — in particular no surrounding whitespace — is accepted.
pub open spec fn valid_number(s: Seq<char>) -> bool {
    if s.len() > 0 && is_sign(s[0]) {
        integer_part(s.skip(1), false)
    } else {
        integer_part(s, false)
    }
}

/// Reads the digits before the decimal point; `seen` records whether the
/// mantissa has shown a digit yet.
pub open spec fn integer_part(s: Seq<char>, seen: bool) -> bool
    decreases s.len(),
{
    if s.len() == 0 {
        seen
    } else if is_digit(s[0]) {
        integer_part(s.skip(1), true)
    } else if s[0] == '.' {
        fraction_part(s.skip(1), seen)
    } else if is_exp_marker(s[0]) && seen {
        exponent_part(s.skip(1))
    } else {
        false
    }
}

/// Reads the digits after the decimal point; `seen` records whether the
/// mantissa has shown a digit yet, on either side of the point.
pub open spec fn fraction_part(s: Seq<char>, seen: bool) -> bool
    decreases s.len(),
{
    if s.len() == 0 {
        seen
    } else if is_digit(s[0]) {
        fraction_part(s.skip(1), true)
    } else if is_exp_marker(s[0]) && seen {
        exponent_part(s.skip(1))
    } else {
        false
    }
}

/// Reads what follows the exponent marker: an optional sign, then digits.
pub open spec fn exponent_part(s: Seq<char>) -> bool {
    if s.len() > 0 && is_sign(s[0]) {
        plain_digits(s.skip(1))
    } else {
        plain_digits(s)
    }
}

/// One or more digits and nothing else.
pub open spec fn plain_digits(s: Seq<char>) -> bool
    decreases s.len(),
{
    if s.len() == 0 {
        false
    } else if !is_digit(s[0]) {
        false
    } else {
        s.len() == 1 || plain_digits(s.skip(1))
    }
}

/// Decides whether a field's text satisfies the numeric grammar.
pub fn is_valid_number(s: &str) -> (r: bool)
    ensures
        r == valid_number(s@),
{
    let n = s.unicode_len();
    if n > 0 {
        let c = s.get_char(0);
        if c == '+' || c == '-' {
            proof {
                assert(s@.skip(0).skip(1) =~= s@.skip(1));
            }
            return scan_integer(s, 1, false);
        }
    }
    proof {
        assert(s@.skip(0) =~= s@);
    }
    scan_integer(s, 0, false)
}

fn scan_integer(s: &str, i: usize, seen: bool) -> (r: bool)
    requires
        i <= s@.len(),
    ensures
        r == integer_part(s@.skip(i as int), seen),
    decreases s@.len() - i,
{
    let n = s.unicode_len();
    if i == n {
        return seen;
    }
    let c = s.get_char(i);
    proof {
        assert(s@.skip(i as int)[0] == s@[i as int]);
        assert(s@.skip(i as int).skip(1) =~= s@.skip(i as int + 1));
    }
    if '0' <= c && c <= '9' {
        scan_integer(s, i + 1, true)
    } else if c == '.' {
        scan_fraction(s, i + 1, seen)
    } else if (c == 'e' || c == 'E') && seen {
        scan_exponent(s, i + 1)
    } else {
        false
    }
}

fn scan_fraction(s: &str, i: usize, seen: bool) -> (r: bool)
    requires
        i <= s@.len(),
    ensures
        r == fraction_part(s@.skip(i as int), seen),
    decreases s@.len() - i,
{
    let n = s.unicode_len();
    if i == n {
        return seen;
    }
    let c = s.get_char(i);
    proof {
        assert(s@.skip(i as int)[0] == s@[i as int]);
        assert(s@.skip(i as int).skip(1) =~= s@.skip(i as int + 1));
    }
    if '0' <= c && c <= '9' {
        scan_fraction(s, i + 1, true)
    } else if (c == 'e' || c == 'E') && seen {
        scan_exponent(s, i + 1)
    } else {
        false
    }
}

fn scan_exponent(s: &str, i: usize) -> (r: bool)
    requires
        i <= s@.len(),
    ensures
        r == exponent_part(s@.skip(i as int)),
{
    let n = s.unicode_len();
    if i < n {
        let c = s.get_char(i);
        proof {
            assert(s@.skip(i as int)[0] == s@[i as int]);
            assert(s@.skip(i as int).skip(1) =~= s@.skip(i as int + 1));
        }
        if c == '+' || c == '-' {
            return scan_digits(s, i + 1);
        }
    }
    scan_digits(s, i)
}

fn scan_digits(s: &str, i: usize) -> (r: bool)
    requires
        i <= s@.len(),
    ensures
        r == plain_digits(s@.skip(i as int)),
    decreases s@.len() - i,
{
    let n = s.unicode_len();
    if i == n {
        return false;
    }
    let c = s.get_char(i);
    proof {
        assert(s@.skip(i as int)[0] == s@[i as int]);
        assert(s@.skip(i as int).skip(1) =~= s@.skip(i as int + 1));
        assert(s@.skip(i as int).len() == s@.len() - i);
    }
    if !('0' <= c && c <= '9') {
        return false;
    }
    if i + 1 == n {
        true
    } else {
        scan_digits(s, i + 1)
    }
}

} // verus!
