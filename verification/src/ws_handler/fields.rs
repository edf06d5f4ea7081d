//! The arguments of control packets: a time in seconds and a play state.

use core::ops::ControlFlow;
use vstd::prelude::*;

use crate::common::text::{
    all_digits, chars_of, digits_value, first_match, is_digit, lemma_find_from,
    lemma_find_from_is, matches_at, scan_digits,
};
use crate::ws_handler::{StateType, MAX_VIDEO_LEN, STATE_MAX};

verus! {

/// The single-character pattern `.`.
pub open spec fn decimal_point() -> Seq<char> {
    seq!['.']
}

/// The text carries a minus sign.
pub open spec fn is_negative(s: Seq<char>) -> bool {
    s.len() > 0 && s[0] == '-'
}

/// The text carries a sign.
pub open spec fn is_signed(s: Seq<char>) -> bool {
    s.len() > 0 && (s[0] == '+' || s[0] == '-')
}

/// The text without its leading sign, where it has one.
pub open spec fn unsigned_part(s: Seq<char>) -> Seq<char> {
    if is_signed(s) {
        s.skip(1)
    } else {
        s
    }
}

/// What stands in front of the first decimal point, or everything where
/// there is none.
pub open spec fn whole_digits(unsigned: Seq<char>) -> Seq<char> {
    match first_match(unsigned, decimal_point()) {
        Some(k) => unsigned.take(k),
        None => unsigned,
    }
}

/// What stands behind the first decimal point, or nothing where there is
/// none.
pub open spec fn fraction_digits(unsigned: Seq<char>) -> Seq<char> {
    match first_match(unsigned, decimal_point()) {
        Some(k) => unsigned.skip(k + 1),
        None => Seq::<char>::empty(),
    }
}

/// The text is an unsigned number in plain decimal notation: digits, and
/// optionally a point followed by digits, with at least one digit on either
/// side of where the point is or would be.
pub open spec fn is_unsigned_seconds(unsigned: Seq<char>) -> bool {
    &&& all_digits(whole_digits(unsigned))
    &&& all_digits(fraction_digits(unsigned))
    &&& whole_digits(unsigned).len() + fraction_digits(unsigned).len() > 0
}

/// The text is a number of seconds: an unsigned number with an optional
/// sign in front. Plain decimal notation is all that is taken: a number
/// with an exponent (`1e3`, `5e-7`) and the words for the special values
/// (`inf`, `infinity`, `nan`) are no numbers of seconds, and neither is
/// anything with a blank in it.
pub open spec fn is_seconds(s: Seq<char>) -> bool {
    is_unsigned_seconds(unsigned_part(s))
}

/// The value of the `n`-th digit behind the point, zero where there is none.
pub open spec fn fraction_digit(fraction: Seq<char>, n: int) -> nat {
    if 0 <= n < fraction.len() {
        (fraction[n] as u32 - '0' as u32) as nat
    } else {
        0
    }
}

/// The whole milliseconds in an unsigned number of seconds: the seconds
/// times one thousand, rounded down.
pub open spec fn unsigned_millis(unsigned: Seq<char>) -> nat {
    let fraction = fraction_digits(unsigned);
    digits_value(whole_digits(unsigned)) * 1000 + fraction_digit(fraction, 0) * 100
        + fraction_digit(fraction, 1) * 10 + fraction_digit(fraction, 2)
}

/// The whole milliseconds in a number of seconds. A negative number counts
/// as zero.
pub open spec fn seconds_to_millis(s: Seq<char>) -> nat {
    if is_negative(s) {
        0
    } else {
        unsigned_millis(unsigned_part(s))
    }
}

/// What a time argument means: a missing or malformed one is no heartbeat,
/// one beyond the longest video is received but rejected, any other gives
/// the position in milliseconds.
pub open spec fn time_field(field: Option<Seq<char>>) -> ControlFlow<bool, usize> {
    match field {
        None => ControlFlow::Break(false),
        Some(s) => if !is_seconds(s) {
            ControlFlow::Break(false)
        } else if seconds_to_millis(s) > MAX_VIDEO_LEN {
            ControlFlow::Break(true)
        } else {
            ControlFlow::Continue(seconds_to_millis(s) as usize)
        },
    }
}

/// In a text whose first `k` characters are digits: a decimal point at `k`
/// parts the whole digits from the fraction; at the end of the text all of
/// it is whole digits; anything else at `k` is part of the whole digits.
proof fn lemma_decimal_shape(u: Seq<char>, k: int)
    requires
        0 <= k <= u.len(),
        all_digits(u.take(k)),
    ensures
        k < u.len() && u[k] == '.' ==> whole_digits(u) == u.take(k) && fraction_digits(u)
            == u.skip(k + 1),
        k == u.len() ==> whole_digits(u) == u && fraction_digits(u) == Seq::<char>::empty(),
        k < u.len() && u[k] != '.' ==> whole_digits(u).len() > k && whole_digits(u)[k] == u[k],
{
    assert(decimal_point().len() == 1);
    assert forall|j: int| 0 <= j < k implies !matches_at(u, decimal_point(), j) by {
        assert(is_digit(u.take(k)[j]));
        if matches_at(u, decimal_point(), j) {
            assert(u.subrange(j, j + 1)[0] == decimal_point()[0]);
        }
    }
    lemma_find_from(u, decimal_point(), 0);
    if k < u.len() && u[k] == '.' {
        assert(u.subrange(k, k + 1) =~= decimal_point());
        lemma_find_from_is(u, decimal_point(), 0, k);
    }
    if k < u.len() && u[k] != '.' {
        if matches_at(u, decimal_point(), k) {
            assert(u.subrange(k, k + 1)[0] == decimal_point()[0]);
        }
    }
}

/// Reads the unsigned number of seconds that starts at `start` and gives it
/// in milliseconds; anything above the longest video reads as one more than
/// the longest video.
fn read_unsigned_seconds(s: &Vec<char>, start: usize) -> (millis: Option<u64>)
    requires
        start <= s.len(),
    ensures
        match millis {
            None => !is_unsigned_seconds(s@.skip(start as int)),
            Some(m) => is_unsigned_seconds(s@.skip(start as int)) && m == if unsigned_millis(
                s@.skip(start as int),
            ) > MAX_VIDEO_LEN {
                MAX_VIDEO_LEN + 1
            } else {
                unsigned_millis(s@.skip(start as int)) as int
            },
        },
{
    let total: usize = s.len();
    let ghost u = s@.skip(start as int);
    let (point, whole) = scan_digits(s, start, 14_400);
    proof {
        assert(u.take(point - start) =~= s@.subrange(start as int, point as int));
        lemma_decimal_shape(u, point - start);
    }
    if point == total {
        if point == start {
            return None;
        }
        if whole > 14_400 {
            return Some(14_400_001);
        }
        return Some(whole * 1000);
    }
    if s[point] != '.' {
        return None;
    }
    let ghost fraction = fraction_digits(u);
    assert(fraction =~= s@.subrange(point + 1, total as int));
    let (end, _) = scan_digits(s, point + 1, 0);
    if end < total {
        assert(fraction[end - point - 1] == s@[end as int]);
        return None;
    }
    let places: usize = total - point - 1;
    if point == start && places == 0 {
        return None;
    }
    if whole > 14_400 {
        return Some(14_400_001);
    }
    let mut millis: u64 = whole * 1000;
    if places >= 1 {
        millis = millis + (s[point + 1] as u32 - '0' as u32) as u64 * 100;
    }
    if places >= 2 {
        millis = millis + (s[point + 2] as u32 - '0' as u32) as u64 * 10;
    }
    if places >= 3 {
        millis = millis + (s[point + 3] as u32 - '0' as u32) as u64;
    }
    if millis > 14_400_000 {
        return Some(14_400_001);
    }
    Some(millis)
}

/// Reads a number of seconds and gives it in milliseconds.
pub fn parse_time_chars(s: &Vec<char>) -> (time: ControlFlow<bool, usize>)
    ensures
        time == time_field(Some(s@)),
{
    let total: usize = s.len();
    let signed: bool = total > 0 && (s[0] == '+' || s[0] == '-');
    let negative: bool = total > 0 && s[0] == '-';
    let start: usize = if signed {
        1
    } else {
        0
    };
    assert(unsigned_part(s@) =~= s@.skip(start as int));
    match read_unsigned_seconds(s, start) {
        None => ControlFlow::Break(false),
        Some(millis) => {
            if negative {
                ControlFlow::Continue(0)
            } else if millis > 14_400_000 {
                ControlFlow::Break(true)
            } else {
                ControlFlow::Continue(millis as usize)
            }
        },
    }
}

/// Reads the time argument of a packet: seconds in decimal notation, turned
/// into whole milliseconds.
pub fn parse_time(field: Option<&str>) -> (time: ControlFlow<bool, usize>)
    ensures
        time == time_field(
            match field {
                Some(s) => Some(s@),
                None => None,
            },
        ),
{
    match field {
        None => ControlFlow::Break(false),
        Some(s) => {
            let chars = chars_of(s);
            parse_time_chars(&chars)
        },
    }
}

/// The text is an unsigned decimal integer as `u8` parsing takes it: an
/// optional plus sign followed by at least one digit.
pub open spec fn is_unsigned_integer(s: Seq<char>) -> bool {
    let digits = if s.len() > 0 && s[0] == '+' {
        s.skip(1)
    } else {
        s
    };
    digits.len() > 0 && all_digits(digits)
}

/// The value of an unsigned decimal integer.
pub open spec fn unsigned_integer_value(s: Seq<char>) -> nat {
    let digits = if s.len() > 0 && s[0] == '+' {
        s.skip(1)
    } else {
        s
    };
    digits_value(digits)
}

/// What a state argument means: a missing one, or one that is no integer
/// between 0 and 255, is no heartbeat; one above the largest state is
/// received but rejected; any other gives the state.
pub open spec fn state_field(field: Option<Seq<char>>) -> ControlFlow<bool, StateType> {
    match field {
        None => ControlFlow::Break(false),
        Some(s) => if !is_unsigned_integer(s) || unsigned_integer_value(s) > 255 {
            ControlFlow::Break(false)
        } else if unsigned_integer_value(s) > STATE_MAX {
            ControlFlow::Break(true)
        } else {
            ControlFlow::Continue(unsigned_integer_value(s) as StateType)
        },
    }
}

/// Reads a play state.
pub fn parse_state_chars(s: &Vec<char>) -> (state: ControlFlow<bool, StateType>)
    ensures
        state == state_field(Some(s@)),
{
    let total: usize = s.len();
    let start: usize = if total > 0 && s[0] == '+' {
        1
    } else {
        0
    };
    let ghost digits = if s@.len() > 0 && s@[0] == '+' {
        s@.skip(1)
    } else {
        s@
    };
    assert(digits =~= s@.skip(start as int));
    let (end, value) = scan_digits(s, start, 255);
    if end < total {
        assert(digits[end - start] == s@[end as int]);
        return ControlFlow::Break(false);
    }
    if end == start || value > 255 {
        return ControlFlow::Break(false);
    }
    if value > 1 {
        return ControlFlow::Break(true);
    }
    ControlFlow::Continue(value as u8)
}

/// Reads the state argument of a packet.
pub fn parse_state(field: Option<&str>) -> (state: ControlFlow<bool, StateType>)
    ensures
        state == state_field(
            match field {
                Some(s) => Some(s@),
                None => None,
            },
        ),
{
    match field {
        None => ControlFlow::Break(false),
        Some(s) => {
            let chars = chars_of(s);
            parse_state_chars(&chars)
        },
    }
}

} // verus!
