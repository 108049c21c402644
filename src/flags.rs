//! Reading settings from the command-line arguments.
//!
//! A flag's value is the argument right after the first occurrence of the
//! flag. A value that is there but does not parse is an error, never a
//! reason to fall back to the default.

use vstd::prelude::*;
use crate::text::chars_of;

verus! {

/// Fade-in length, in seconds, when `-f` is not given.
pub const DEFAULT_FADE_SECONDS: u32 = 5;

/// Shortest pause between tracks, in seconds, when `-m` is not given.
pub const DEFAULT_MIN_DELAY_SECONDS: u64 = 300;

/// Longest pause between tracks, in seconds, when `-x` is not given.
pub const DEFAULT_MAX_DELAY_SECONDS: u64 = 600;

/// A flag was given with a value that does not parse.
#[derive(Clone, Copy, Debug, PartialEq, Eq, Structural)]
pub enum FlagError {
    InvalidValue,
}

/// `i` is the first position of `flag` in `args`.
pub open spec fn is_first_at(args: Seq<String>, flag: Seq<char>, i: int) -> bool {
    &&& 0 <= i < args.len()
    &&& args[i]@ == flag
    &&& forall|j: int| 0 <= j < i ==> (#[trigger] args[j])@ != flag
}

pub open spec fn has_flag(args: Seq<String>, flag: Seq<char>) -> bool {
    exists|i: int| 0 <= i < args.len() && (#[trigger] args[i])@ == flag
}

/// The argument that follows the first occurrence of `flag`, if both are
/// there.
pub open spec fn value_after(args: Seq<String>, flag: Seq<char>) -> Option<Seq<char>> {
    if exists|i: int| is_first_at(args, flag, i) && i + 1 < args.len() {
        let i = choose|i: int| is_first_at(args, flag, i) && i + 1 < args.len();
        Some(args[i + 1]@)
    } else {
        None
    }
}

pub open spec fn is_digit(c: char) -> bool {
    '0' <= c <= '9'
}

/// The number written by a string of decimal digits.
pub open spec fn decimal_value(digits: Seq<char>) -> nat
    decreases digits.len(),
{
    if digits.len() == 0 {
        0
    } else {
        decimal_value(digits.drop_last()) * 10 + (digits.last() as nat - '0' as nat) as nat
    }
}

/// The digits of an unsigned number's text, after an optional '+'.
pub open spec fn digits_part(s: Seq<char>) -> Seq<char> {
    if s.len() > 0 && s[0] == '+' {
        s.skip(1)
    } else {
        s
    }
}

/// The `u32` that `s` writes: an optional '+', then at least one decimal
/// digit, with a value that fits.
pub open spec fn u32_from_text(s: Seq<char>) -> Option<u32> {
    let d = digits_part(s);
    if d.len() > 0 && (forall|i: int| 0 <= i < d.len() ==> is_digit(#[trigger] d[i]))
        && decimal_value(d) <= u32::MAX {
        Some(decimal_value(d) as u32)
    } else {
        None
    }
}

proof fn lemma_first_unique(args: Seq<String>, flag: Seq<char>, i: int, j: int)
    requires
        is_first_at(args, flag, i),
        is_first_at(args, flag, j),
    ensures
        i == j,
{
    if i < j {
        assert(args[i]@ != flag);
    } else if j < i {
        assert(args[j]@ != flag);
    }
}

proof fn lemma_decimal_grows(d: Seq<char>, i: int, j: int)
    requires
        0 <= i <= j <= d.len(),
        forall|k: int| 0 <= k < d.len() ==> is_digit(#[trigger] d[k]),
    ensures
        decimal_value(d.take(i)) <= decimal_value(d.take(j)),
    decreases j - i,
{
    if i < j {
        lemma_decimal_grows(d, i, j - 1);
        assert(d.take(j).drop_last() =~= d.take(j - 1));
        assert(is_digit(d[j - 1]));
    }
}

/// Position of the first occurrence of `flag` in `args`.
fn flag_position(args: &Vec<String>, flag: &String) -> (r: Option<usize>)
    ensures
        r matches Some(i) ==> is_first_at(args@, flag@, i as int),
        r is None <==> !has_flag(args@, flag@),
{
    let mut i: usize = 0;
    while i < args.len()
        invariant
            i <= args.len(),
            forall|j: int| 0 <= j < i ==> (#[trigger] args@[j])@ != flag@,
        decreases args.len() - i,
    {
        if args[i] == *flag {
            return Some(i);
        }
        i = i + 1;
    }
    None
}

/// Whether `flag` is among the arguments: `Some(true)` if so, else `None`.
pub fn parse_bool_flag(args: Vec<String>, flag: String) -> (r: Option<bool>)
    ensures
        r == (if has_flag(args@, flag@) {
            Some(true)
        } else {
            None
        }),
{
    match flag_position(&args, &flag) {
        Some(_) => Some(true),
        None => None,
    }
}

/// The argument right after the first occurrence of `flag`, if both are
/// there.
pub fn flag_value(args: &Vec<String>, flag: &String) -> (r: Option<String>)
    ensures
        r matches Some(v) ==> value_after(args@, flag@) == Some(v@),
        r is None ==> value_after(args@, flag@) is None,
{
    match flag_position(args, flag) {
        Some(i) => {
            proof {
                if exists|k: int| is_first_at(args@, flag@, k) && k + 1 < args@.len() {
                    let k = choose|k: int| is_first_at(args@, flag@, k) && k + 1 < args@.len();
                    lemma_first_unique(args@, flag@, i as int, k);
                }
            }
            if i < args.len() - 1 {
                Some(args[i + 1].clone())
            } else {
                None
            }
        },
        None => {
            proof {
                if exists|k: int| is_first_at(args@, flag@, k) && k + 1 < args@.len() {
                    let k = choose|k: int| is_first_at(args@, flag@, k) && k + 1 < args@.len();
                    assert(args@[k]@ == flag@);
                }
            }
            None
        },
    }
}

/// The `u32` written by `s`: an optional '+' and decimal digits, as
/// `str::parse::<u32>` reads it.
pub fn parse_u32(s: &String) -> (r: Option<u32>)
    ensures
        r == u32_from_text(s@),
{
    let chars = chars_of(s.as_str());
    let start: usize = if chars.len() > 0 && chars[0] == '+' {
        1
    } else {
        0
    };
    let ghost d = digits_part(s@);
    assert(d =~= chars@.skip(start as int));
    if start == chars.len() {
        return None;
    }
    let mut value: u64 = 0;
    let mut i: usize = start;
    while i < chars.len()
        invariant
            start <= i <= chars.len(),
            chars@ == s@,
            d == chars@.skip(start as int),
            d == digits_part(s@),
            forall|k: int| 0 <= k < i - start ==> is_digit(#[trigger] d[k]),
            value == decimal_value(d.take(i - start)),
            value <= u32::MAX,
        decreases chars.len() - i,
    {
        let c = chars[i];
        if c < '0' || c > '9' {
            assert(!is_digit(d[i - start]));
            assert(u32_from_text(s@) is None);
            return None;
        }
        let digit = (c as u32 - '0' as u32) as u64;
        let next = value * 10 + digit;
        proof {
            assert(d.take(i - start + 1).drop_last() =~= d.take(i - start));
            assert(d.take(i - start + 1).last() == c);
            assert(decimal_value(d.take(i - start + 1)) == next);
        }
        if next > u32::MAX as u64 {
            proof {
                if forall|k: int| 0 <= k < d.len() ==> is_digit(#[trigger] d[k]) {
                    lemma_decimal_grows(d, i - start + 1, d.len() as int);
                    assert(d.take(d.len() as int) =~= d);
                }
            }
            assert(u32_from_text(s@) is None);
            return None;
        }
        value = next;
        i = i + 1;
    }
    assert(d.take(i - start) =~= d);
    Some(value as u32)
}

/// The value of `flag` as a `u32`: `Ok(None)` when the flag or its value is
/// missing, an error when the value does not parse.
pub fn parse_value_flag(args: Vec<String>, flag: String) -> (r: Result<Option<u32>, FlagError>)
    ensures
        value_after(args@, flag@) is None ==> r == Ok::<Option<u32>, FlagError>(None),
        value_after(args@, flag@) matches Some(v) ==> r == (match u32_from_text(v) {
            Some(n) => Ok(Some(n)),
            None => Err(FlagError::InvalidValue),
        }),
{
    match flag_value(&args, &flag) {
        None => Ok(None),
        Some(v) => match parse_u32(&v) {
            Some(n) => Ok(Some(n)),
            None => Err(FlagError::InvalidValue),
        },
    }
}

} // verus!
