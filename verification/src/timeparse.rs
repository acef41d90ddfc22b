//! Flexible timestamp reading: integer epoch milliseconds, or an ISO-8601
//! string `YYYY-MM-DDTHH:MM:SS` (also with a space separator) with an
//! optional `.mmm` millisecond fraction and an optional `Z` or `+HH:MM` /
//! `-HH:MM` zone offset.

use vstd::prelude::*;
use crate::json::JsonValue;
use crate::strutil::chars_vec;

verus! {

/// Whether the character is an ASCII decimal digit.
pub open spec fn is_digit(c: char) -> bool {
    48 <= c as u32 <= 57
}

/// The value of an ASCII decimal digit.
pub open spec fn digit(c: char) -> int {
    c as u32 - 48
}

/// Whether `n` digits stand at position `i`.
pub open spec fn digits_at(s: Seq<char>, i: int, n: int) -> bool {
    forall|k: int| i <= k < i + n ==> is_digit(s[k])
}

/// The value of the two digits at position `i`.
pub open spec fn two_digits(s: Seq<char>, i: int) -> int {
    10 * digit(s[i]) + digit(s[i + 1])
}

/// The value of the three digits at position `i`.
pub open spec fn three_digits(s: Seq<char>, i: int) -> int {
    100 * digit(s[i]) + 10 * digit(s[i + 1]) + digit(s[i + 2])
}

/// The value of the four digits at position `i`.
pub open spec fn four_digits(s: Seq<char>, i: int) -> int {
    1000 * digit(s[i]) + 100 * digit(s[i + 1]) + 10 * digit(s[i + 2]) + digit(s[i + 3])
}

/// Days from the epoch 1970-01-01 to the civil date y-m-d in the proleptic
/// Gregorian calendar, for years 0 to 9999. The computation groups years
/// into 400-year eras of 146097 days, shifted by one era so that every
/// intermediate quantity stays non-negative.
pub open spec fn days_from_civil(y: int, m: int, d: int) -> int {
    let ys = if m <= 2 {
        y + 399
    } else {
        y + 400
    };
    let era = ys / 400;
    let yoe = ys - era * 400;
    let mp = if m > 2 {
        m - 3
    } else {
        m + 9
    };
    let doy = (153 * mp + 2) / 5 + d - 1;
    let doe = yoe * 365 + yoe / 4 - yoe / 100 + doy;
    era * 146097 + doe - 865565
}

/// Whether the fixed `YYYY-MM-DDTHH:MM:SS` prefix is present, with a `T` or
/// space separator and the field ranges respected.
pub open spec fn iso_prefix_ok(s: Seq<char>) -> bool {
    &&& s.len() >= 19
    &&& digits_at(s, 0, 4)
    &&& s[4] == '-'
    &&& digits_at(s, 5, 2)
    &&& s[7] == '-'
    &&& digits_at(s, 8, 2)
    &&& (s[10] == 'T' || s[10] == ' ')
    &&& digits_at(s, 11, 2)
    &&& s[13] == ':'
    &&& digits_at(s, 14, 2)
    &&& s[16] == ':'
    &&& digits_at(s, 17, 2)
    &&& 1 <= two_digits(s, 5) <= 12
    &&& 1 <= two_digits(s, 8) <= 31
    &&& two_digits(s, 11) <= 23
    &&& two_digits(s, 14) <= 59
    &&& two_digits(s, 17) <= 59
}

/// The zone offset in minutes starting at position `z`: absent or `Z` mean
/// zero; `+HH:MM` and `-HH:MM` give a signed offset.
pub open spec fn iso_zone(s: Seq<char>, z: int) -> Option<int> {
    if s.len() == z {
        Some(0)
    } else if s[z] == 'Z' && s.len() == z + 1 {
        Some(0)
    } else if (s[z] == '+' || s[z] == '-') && s.len() == z + 6 && digits_at(s, z + 1, 2) && s[z
        + 3] == ':' && digits_at(s, z + 4, 2) {
        let m = two_digits(s, z + 1) * 60 + two_digits(s, z + 4);
        Some(
            if s[z] == '-' {
                -m
            } else {
                m
            },
        )
    } else {
        None
    }
}

/// The millisecond fraction and zone offset after the seconds field: an
/// optional `.mmm` with exactly three digits, then the zone.
pub open spec fn iso_suffix(s: Seq<char>) -> Option<(int, int)> {
    if s.len() == 19 {
        Some((0, 0))
    } else if s[19] == '.' {
        if s.len() >= 23 && digits_at(s, 20, 3) {
            match iso_zone(s, 23) {
                Some(off) => Some((three_digits(s, 20), off)),
                None => None,
            }
        } else {
            None
        }
    } else {
        match iso_zone(s, 19) {
            Some(off) => Some((0, off)),
            None => None,
        }
    }
}

/// Epoch milliseconds denoted by an ISO-8601 string of the accepted shape,
/// `None` for any other text.
pub open spec fn spec_iso_millis(s: Seq<char>) -> Option<i64> {
    if !iso_prefix_ok(s) {
        None
    } else {
        match iso_suffix(s) {
            None => None,
            Some((ms, off)) => {
                let days = days_from_civil(four_digits(s, 0), two_digits(s, 5), two_digits(s, 8));
                let secs = days * 86400 + two_digits(s, 11) * 3600 + two_digits(s, 14) * 60
                    + two_digits(s, 17);
                Some((secs * 1000 + ms - off * 60000) as i64)
            },
        }
    }
}

/// What any accepted timestamp value denotes: an integer is taken as epoch
/// milliseconds directly, a string is read as ISO-8601, anything else is
/// absent.
pub open spec fn spec_parse_timestamp(v: JsonValue) -> Option<i64> {
    match v {
        JsonValue::Int(i) => Some(i),
        JsonValue::Str(s) => spec_iso_millis(s@),
        _ => None,
    }
}

fn digit_val(c: char) -> (r: Option<u64>)
    ensures
        r is Some <==> is_digit(c),
        r is Some ==> r->0 == digit(c) && r->0 <= 9,
{
    let u = c as u32;
    if 48 <= u && u <= 57 {
        Some((u - 48) as u64)
    } else {
        None
    }
}

fn read2(v: &Vec<char>, i: usize) -> (r: Option<u64>)
    requires
        i + 2 <= v@.len(),
    ensures
        r is Some <==> digits_at(v@, i as int, 2),
        r is Some ==> r->0 == two_digits(v@, i as int) && r->0 <= 99,
{
    let n = v.len();
    let a = digit_val(v[i]);
    let b = digit_val(v[i + 1]);
    match (a, b) {
        (Some(x), Some(y)) => Some(10 * x + y),
        _ => {
            proof {
                assert(!(digits_at(v@, i as int, 2))) by {
                    if digits_at(v@, i as int, 2) {
                        assert(is_digit(v@[i as int]));
                        assert(is_digit(v@[i as int + 1]));
                    }
                }
            }
            None
        },
    }
}

fn read3(v: &Vec<char>, i: usize) -> (r: Option<u64>)
    requires
        i + 3 <= v@.len(),
    ensures
        r is Some <==> digits_at(v@, i as int, 3),
        r is Some ==> r->0 == three_digits(v@, i as int) && r->0 <= 999,
{
    let n = v.len();
    let a = digit_val(v[i]);
    let b = digit_val(v[i + 1]);
    let c = digit_val(v[i + 2]);
    match (a, b, c) {
        (Some(x), Some(y), Some(z)) => Some(100 * x + 10 * y + z),
        _ => {
            proof {
                assert(!(digits_at(v@, i as int, 3))) by {
                    if digits_at(v@, i as int, 3) {
                        assert(is_digit(v@[i as int]));
                        assert(is_digit(v@[i as int + 1]));
                        assert(is_digit(v@[i as int + 2]));
                    }
                }
            }
            None
        },
    }
}

fn read4(v: &Vec<char>, i: usize) -> (r: Option<u64>)
    requires
        i + 4 <= v@.len(),
    ensures
        r is Some <==> digits_at(v@, i as int, 4),
        r is Some ==> r->0 == four_digits(v@, i as int) && r->0 <= 9999,
{
    let n = v.len();
    let a = digit_val(v[i]);
    let b = digit_val(v[i + 1]);
    let c = digit_val(v[i + 2]);
    let d = digit_val(v[i + 3]);
    match (a, b, c, d) {
        (Some(w), Some(x), Some(y), Some(z)) => Some(1000 * w + 100 * x + 10 * y + z),
        _ => {
            proof {
                assert(!(digits_at(v@, i as int, 4))) by {
                    if digits_at(v@, i as int, 4) {
                        assert(is_digit(v@[i as int]));
                        assert(is_digit(v@[i as int + 1]));
                        assert(is_digit(v@[i as int + 2]));
                        assert(is_digit(v@[i as int + 3]));
                    }
                }
            }
            None
        },
    }
}

/// Days from the epoch for a date with the year, month and day in range.
fn days_from_civil_exec(y: u64, m: u64, d: u64) -> (r: i64)
    requires
        y <= 9999,
        1 <= m <= 12,
        1 <= d <= 31,
    ensures
        r == days_from_civil(y as int, m as int, d as int),
{
    let ys: u64 = if m <= 2 {
        y + 399
    } else {
        y + 400
    };
    let era: u64 = ys / 400;
    let yoe: u64 = ys - era * 400;
    let mp: u64 = if m > 2 {
        m - 3
    } else {
        m + 9
    };
    let doy: u64 = (153 * mp + 2) / 5 + d - 1;
    let doe: u64 = yoe * 365 + yoe / 4 - yoe / 100 + doy;
    let shifted: u64 = era * 146097 + doe;
    shifted as i64 - 865565
}

fn zone_minutes(v: &Vec<char>, z: usize) -> (r: Option<i64>)
    requires
        z <= v@.len(),
    ensures
        match r {
            Some(off) => iso_zone(v@, z as int) == Some(off as int),
            None => iso_zone(v@, z as int) is None,
        },
{
    let n = v.len();
    if n == z {
        return Some(0);
    }
    let c = v[z];
    if c == 'Z' {
        if n - z == 1 {
            return Some(0);
        }
        return None;
    }
    if (c == '+' || c == '-') && n - z == 6 {
        if v[z + 3] != ':' {
            return None;
        }
        let h = read2(v, z + 1);
        let m = read2(v, z + 4);
        match (h, m) {
            (Some(hh), Some(mm)) => {
                let total = (hh * 60 + mm) as i64;
                if c == '-' {
                    Some(-total)
                } else {
                    Some(total)
                }
            },
            _ => None,
        }
    } else {
        None
    }
}

/// Reads an ISO-8601 timestamp as epoch milliseconds; `None` exactly on
/// strings outside the accepted shape.
pub fn parse_iso_chars(v: &Vec<char>) -> (r: Option<i64>)
    ensures
        r == spec_iso_millis(v@),
{
    let n = v.len();
    if n < 19 {
        return None;
    }
    if v[4] != '-' || v[7] != '-' || v[13] != ':' || v[16] != ':' {
        return None;
    }
    if v[10] != 'T' && v[10] != ' ' {
        return None;
    }
    let year = match read4(v, 0) {
        Some(x) => x,
        None => {
            return None;
        },
    };
    let month = match read2(v, 5) {
        Some(x) => x,
        None => {
            return None;
        },
    };
    let day = match read2(v, 8) {
        Some(x) => x,
        None => {
            return None;
        },
    };
    let hour = match read2(v, 11) {
        Some(x) => x,
        None => {
            return None;
        },
    };
    let minute = match read2(v, 14) {
        Some(x) => x,
        None => {
            return None;
        },
    };
    let second = match read2(v, 17) {
        Some(x) => x,
        None => {
            return None;
        },
    };
    if !(1 <= month && month <= 12 && 1 <= day && day <= 31 && hour <= 23 && minute <= 59 && second
        <= 59) {
        return None;
    }
    assert(iso_prefix_ok(v@));
    let ms: u64;
    let zone_at: usize;
    if n > 19 && v[19] == '.' {
        if n < 23 {
            return None;
        }
        match read3(v, 20) {
            Some(x) => {
                ms = x;
                zone_at = 23;
            },
            None => {
                return None;
            },
        }
    } else {
        ms = 0;
        zone_at = 19;
    }
    let off = match zone_minutes(v, zone_at) {
        Some(x) => x,
        None => {
            return None;
        },
    };
    let days = days_from_civil_exec(year, month, day);
    let secs: i64 = days * 86400 + (hour * 3600 + minute * 60 + second) as i64;
    let millis: i64 = secs * 1000 + ms as i64 - off * 60000;
    Some(millis)
}

/// Reads a timestamp value: an integer as epoch milliseconds, a string as
/// ISO-8601, anything else as absent.
pub fn parse_timestamp(v: &JsonValue) -> (r: Option<i64>)
    ensures
        r == spec_parse_timestamp(*v),
{
    match v {
        JsonValue::Int(i) => Some(*i),
        JsonValue::Str(s) => {
            let cs = chars_vec(s.as_str());
            parse_iso_chars(&cs)
        },
        _ => None,
    }
}

} // verus!
