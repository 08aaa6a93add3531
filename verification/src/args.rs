//! The command line: exactly one positional argument, a base-10 signed 32-bit
//! integer giving the number of commits to move by.

use vstd::prelude::*;

verus! {

/// Why the command line was rejected.
#[derive(Clone, Copy, PartialEq, Eq, Structural, Debug)]
pub enum ArgError {
    /// Not exactly one positional argument; carries how many were given.
    WrongCount { given: usize },
    /// The argument is not a base-10 signed 32-bit integer.
    NotAnInteger,
}

/// An ASCII decimal digit.
pub open spec fn is_ascii_digit(b: u8) -> bool {
    0x30 <= b <= 0x39
}

/// The numeric value of one ASCII digit.
pub open spec fn digit_value(b: u8) -> int {
    b - 0x30
}

/// Every byte of `s` is an ASCII digit.
pub open spec fn all_digits(s: Seq<u8>) -> bool {
    forall|i: int| 0 <= i < s.len() ==> is_ascii_digit(s[i])
}

/// The value of a digit string read most-significant first.
pub open spec fn digits_value(s: Seq<u8>) -> int
    decreases s.len(),
{
    if s.len() == 0 {
        0
    } else {
        10 * digits_value(s.drop_last()) + digit_value(s.last())
    }
}

/// The texts accepted as a signed integer: an optional `+` or `-` sign
/// followed by one or more ASCII digits, nothing else.
pub open spec fn is_int_literal(s: Seq<u8>) -> bool {
    if s.len() == 0 {
        false
    } else if s[0] == 0x2b || s[0] == 0x2d {
        s.len() > 1 && all_digits(s.skip(1))
    } else {
        all_digits(s)
    }
}

/// The signed value an integer literal denotes.
pub open spec fn int_literal_value(s: Seq<u8>) -> int
    recommends
        is_int_literal(s),
{
    if s.len() > 0 && s[0] == 0x2d {
        -digits_value(s.skip(1))
    } else if s.len() > 0 && s[0] == 0x2b {
        digits_value(s.skip(1))
    } else {
        digits_value(s)
    }
}

/// The texts that parse as an `i32`: an integer literal whose value fits.
pub open spec fn parses_to_i32(s: Seq<u8>) -> bool {
    is_int_literal(s) && i32::MIN <= int_literal_value(s) <= i32::MAX
}

proof fn lemma_digits_value_nonneg(s: Seq<u8>)
    requires
        all_digits(s),
    ensures
        digits_value(s) >= 0,
    decreases s.len(),
{
    if s.len() > 0 {
        assert(all_digits(s.drop_last()));
        lemma_digits_value_nonneg(s.drop_last());
    }
}

/// Parses `s` as a base-10 signed 32-bit integer; `None` exactly when the
/// text is not an integer literal or its value does not fit.
pub fn parse_i32(s: &[u8]) -> (r: Option<i32>)
    ensures
        r is Some <==> parses_to_i32(s@),
        r matches Some(v) ==> v == int_literal_value(s@),
{
    if s.len() == 0 {
        return None;
    }
    let first: u8 = s[0];
    let negative = first == 0x2d;
    let signed = negative || first == 0x2b;
    let start: usize = if signed { 1 } else { 0 };
    if s.len() == start {
        // A bare sign has no digits.
        return None;
    }
    let ghost digits = s@.skip(start as int);
    proof {
        assert(s@.skip(0) =~= s@);
    }
    let mut i: usize = start;
    let mut mag: u64 = 0;
    let mut over: bool = false;
    while i < s.len()
        invariant
            start <= i <= s@.len(),
            start <= 1,
            start < s@.len(),
            digits == s@.skip(start as int),
            start == 0 ==> digits == s@,
            start == 1 ==> (s@[0] == 0x2b || s@[0] == 0x2d),
            is_int_literal(s@) <==> all_digits(digits),
            all_digits(s@.subrange(start as int, i as int)),
            !over ==> mag <= 0xFFFF_FFFFu64 && mag == digits_value(s@.subrange(start as int, i as int)),
            over ==> digits_value(s@.subrange(start as int, i as int)) > 0xFFFF_FFFF,
        decreases s@.len() - i,
    {
        let b: u8 = s[i];
        if !(0x30 <= b && b <= 0x39) {
            assert(!all_digits(digits)) by {
                assert(digits[i - start] == s@[i as int]);
            }
            return None;
        }
        proof {
            assert(s@.subrange(start as int, i + 1) =~= s@.subrange(start as int, i as int).push(
                s@[i as int],
            ));
            assert(s@.subrange(start as int, i + 1).drop_last() =~= s@.subrange(
                start as int,
                i as int,
            ));
        }
        if over {
            proof {
                let prev = s@.subrange(start as int, i as int);
                assert(all_digits(prev));
                lemma_digits_value_nonneg(prev);
            }
        } else {
            let d: u64 = (b - 0x30) as u64;
            let next: u64 = mag * 10 + d;
            if next > 0xFFFF_FFFF {
                over = true;
            } else {
                mag = next;
            }
        }
        i = i + 1;
    }
    proof {
        assert(s@.subrange(start as int, s@.len() as int) =~= digits);
        assert(all_digits(digits));
        assert(is_int_literal(s@));
    }
    if over {
        // The magnitude exceeds every 32-bit value.
        return None;
    }
    if negative {
        if mag > 0x8000_0000 {
            return None;
        }
        if mag == 0x8000_0000 {
            return Some(i32::MIN);
        }
        return Some(-(mag as i32));
    }
    if mag > 0x7FFF_FFFF {
        return None;
    }
    Some(mag as i32)
}

/// The rejection for an argument list of `n_args` entries (program name
/// included) when it does not hold exactly one positional argument.
pub open spec fn wrong_count(n_args: nat) -> ArgError {
    ArgError::WrongCount { given: if n_args == 0 { 0usize } else { (n_args - 1) as usize } }
}

/// Reads the step count from the full argument list (program name first):
/// exactly one positional argument is accepted, and it must parse as an
/// `i32`; each rejection names its cause.
pub fn read_step_count(args: &Vec<Vec<u8>>) -> (r: Result<i32, ArgError>)
    ensures
        args@.len() != 2 ==> r == Err::<i32, ArgError>(wrong_count(args@.len())),
        args@.len() == 2 ==> {
            &&& r is Ok <==> parses_to_i32(args@[1]@)
            &&& (r matches Ok(v) ==> v == int_literal_value(args@[1]@))
            &&& (!parses_to_i32(args@[1]@) ==> r == Err::<i32, ArgError>(ArgError::NotAnInteger))
        },
{
    if args.len() != 2 {
        let given: usize = if args.len() == 0 {
            0
        } else {
            args.len() - 1
        };
        return Err(ArgError::WrongCount { given });
    }
    match parse_i32(args[1].as_slice()) {
        Some(v) => Ok(v),
        None => Err(ArgError::NotAnInteger),
    }
}

} // verus!
