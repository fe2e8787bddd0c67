//! Decimal text: rendering unsigned values for alert messages and parsing
//! them from command-line input.

use vstd::prelude::*;
use vstd::string::StrSliceExecFns;
use vstd::string::StringExecFns;

verus! {

/// The character for one decimal digit.
pub open spec fn digit_char(d: int) -> char {
    if d == 0 {
        '0'
    } else if d == 1 {
        '1'
    } else if d == 2 {
        '2'
    } else if d == 3 {
        '3'
    } else if d == 4 {
        '4'
    } else if d == 5 {
        '5'
    } else if d == 6 {
        '6'
    } else if d == 7 {
        '7'
    } else if d == 8 {
        '8'
    } else {
        '9'
    }
}

/// The decimal rendering of `n`, most significant digit first, with no
/// leading zeros (`0` itself renders as "0").
pub open spec fn dec_str(n: nat) -> Seq<char>
    decreases n,
{
    if n < 10 {
        seq![digit_char(n as int)]
    } else {
        dec_str(n / 10).push(digit_char((n % 10) as int))
    }
}

/// The value of one decimal digit character, if it is one.
pub open spec fn digit_of(c: char) -> Option<u64> {
    if c == '0' {
        Some(0u64)
    } else if c == '1' {
        Some(1u64)
    } else if c == '2' {
        Some(2u64)
    } else if c == '3' {
        Some(3u64)
    } else if c == '4' {
        Some(4u64)
    } else if c == '5' {
        Some(5u64)
    } else if c == '6' {
        Some(6u64)
    } else if c == '7' {
        Some(7u64)
    } else if c == '8' {
        Some(8u64)
    } else if c == '9' {
        Some(9u64)
    } else {
        None
    }
}

/// Whether every character of `s` is a decimal digit.
pub open spec fn all_digits(s: Seq<char>) -> bool {
    forall|i: int| 0 <= i < s.len() ==> (#[trigger] digit_of(s[i])) is Some
}

/// The value of a digit string, most significant digit first.
pub open spec fn dec_val(s: Seq<char>) -> int
    decreases s.len(),
{
    if s.len() == 0 {
        0
    } else {
        dec_val(s.drop_last()) * 10 + match digit_of(s.last()) {
            Some(d) => d as int,
            None => 0,
        }
    }
}

/// The digits that carry the value: the input without an optional single
/// leading plus sign.
pub open spec fn unsigned_part(s: Seq<char>) -> Seq<char> {
    if s.len() > 0 && s[0] == '+' {
        s.drop_first()
    } else {
        s
    }
}

/// Why a decimal string failed to parse.
#[derive(Copy, Clone, Debug, PartialEq, Eq, Structural)]
pub enum ParseNumError {
    /// The input was empty.
    Empty,
    /// A character was not a decimal digit (or only a sign was given).
    InvalidDigit,
    /// The value does not fit in 64 bits.
    Overflow,
}

/// The one-character string for a decimal digit.
fn digit_literal(d: u64) -> (r: &'static str)
    requires
        d < 10,
    ensures
        r@ == seq![digit_char(d as int)],
{
    proof {
        reveal_strlit("0");
        reveal_strlit("1");
        reveal_strlit("2");
        reveal_strlit("3");
        reveal_strlit("4");
        reveal_strlit("5");
        reveal_strlit("6");
        reveal_strlit("7");
        reveal_strlit("8");
        reveal_strlit("9");
        assert("0"@ =~= seq![digit_char(0)]);
        assert("1"@ =~= seq![digit_char(1)]);
        assert("2"@ =~= seq![digit_char(2)]);
        assert("3"@ =~= seq![digit_char(3)]);
        assert("4"@ =~= seq![digit_char(4)]);
        assert("5"@ =~= seq![digit_char(5)]);
        assert("6"@ =~= seq![digit_char(6)]);
        assert("7"@ =~= seq![digit_char(7)]);
        assert("8"@ =~= seq![digit_char(8)]);
        assert("9"@ =~= seq![digit_char(9)]);
    }
    match d {
        0 => "0",
        1 => "1",
        2 => "2",
        3 => "3",
        4 => "4",
        5 => "5",
        6 => "6",
        7 => "7",
        8 => "8",
        _ => "9",
    }
}

/// Renders `n` in decimal.
pub fn u64_to_dec(n: u64) -> (r: String)
    ensures
        r@ == dec_str(n as nat),
    decreases n,
{
    if n < 10 {
        String::from_str(digit_literal(n))
    } else {
        let pre = u64_to_dec(n / 10);
        let r = pre.concat(digit_literal(n % 10));
        proof {
            assert(r@ =~= dec_str(n as nat));
        }
        r
    }
}

/// The value of one decimal digit character, if it is one.
fn digit_value(c: char) -> (r: Option<u64>)
    ensures
        r == digit_of(c),
{
    match c {
        '0' => Some(0),
        '1' => Some(1),
        '2' => Some(2),
        '3' => Some(3),
        '4' => Some(4),
        '5' => Some(5),
        '6' => Some(6),
        '7' => Some(7),
        '8' => Some(8),
        '9' => Some(9),
        _ => None,
    }
}

/// Parses an unsigned decimal with an optional leading plus sign.
///
/// Fails with `Empty` exactly on the empty input, with `InvalidDigit`
/// exactly when a character is no digit or nothing follows the sign, and
/// with `Overflow` exactly when the digits denote a value above `u64::MAX`;
/// otherwise returns exactly the denoted value.
pub fn parse_u64(s: &str) -> (r: Result<u64, ParseNumError>)
    ensures
        ({
            let t = unsigned_part(s@);
            match r {
                Ok(v) => t.len() > 0 && all_digits(t) && v == dec_val(t),
                Err(ParseNumError::Empty) => s@.len() == 0,
                Err(ParseNumError::InvalidDigit) => s@.len() > 0 && (t.len() == 0 || !all_digits(
                    t,
                )),
                Err(ParseNumError::Overflow) => t.len() > 0 && all_digits(t) && dec_val(t)
                    > u64::MAX,
            }
        }),
{
    let n = s.unicode_len();
    if n == 0 {
        return Err(ParseNumError::Empty);
    }
    let start: usize = if s.get_char(0) == '+' {
        1
    } else {
        0
    };
    let ghost t = unsigned_part(s@);
    proof {
        assert(t =~= s@.subrange(start as int, n as int));
    }
    if n == start {
        return Err(ParseNumError::InvalidDigit);
    }
    let mut acc: u64 = 0;
    let mut overflowed = false;
    let mut i: usize = start;
    while i < n
        invariant
            start <= i <= n,
            n == s@.len(),
            start <= 1,
            t == unsigned_part(s@),
            t == s@.subrange(start as int, n as int),
            all_digits(t.take(i - start)),
            !overflowed ==> acc == dec_val(t.take(i - start)),
            overflowed ==> dec_val(t.take(i - start)) > u64::MAX,
        decreases n - i,
    {
        let ghost j = i - start;
        let c = s.get_char(i);
        proof {
            assert(t[j] == s@[i as int]);
            assert(t.take(j + 1).drop_last() =~= t.take(j));
            assert(t.take(j + 1).last() == t[j]);
        }
        let d = match digit_value(c) {
            Some(d) => d,
            None => {
                proof {
                    assert(0 <= j < t.len() && !(digit_of(t[j]) is Some));
                    assert(!all_digits(t));
                }
                return Err(ParseNumError::InvalidDigit);
            }
        };
        proof {
            assert(dec_val(t.take(j + 1)) == dec_val(t.take(j)) * 10 + d);
        }
        if !overflowed {
            let next = match acc.checked_mul(10) {
                Some(x) => x.checked_add(d),
                None => None,
            };
            match next {
                Some(v) => {
                    acc = v;
                }
                None => {
                    overflowed = true;
                }
            }
        }
        i += 1;
    }
    proof {
        assert(t.take(n - start) =~= t);
    }
    if overflowed {
        Err(ParseNumError::Overflow)
    } else {
        Ok(acc)
    }
}

} // verus!
