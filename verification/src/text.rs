//! Plain-text helpers the tracker needs: decimal parsing for stored settings,
//! decimal rendering for the CSV export, and the wall-clock labels that the
//! prompt notifications and the export carry.

use vstd::prelude::*;
use vstd::string::StrSliceExecFns;
use vstd::string::StringExecFns;

verus! {

pub open spec fn is_dec_digit(c: char) -> bool {
    '0' <= c && c <= '9'
}

pub open spec fn digit_val(c: char) -> int {
    c as int - '0' as int
}

pub open spec fn all_dec_digits(s: Seq<char>) -> bool {
    forall|i: int| 0 <= i < s.len() ==> is_dec_digit(#[trigger] s[i])
}

/// The value of a sequence of decimal digits, most significant first.
pub open spec fn digits_val(s: Seq<char>) -> int
    decreases s.len(),
{
    if s.len() == 0 {
        0
    } else {
        digits_val(s.drop_last()) * 10 + digit_val(s.last())
    }
}

/// What parsing a decimal unsigned integer yields: an optional leading `+`,
/// then at least one digit, and a value that fits the type.
pub open spec fn parse_u64_text(s: Seq<char>) -> Option<u64> {
    let body = if s.len() >= 1 && s[0] == '+' {
        s.subrange(1, s.len() as int)
    } else {
        s
    };
    if body.len() > 0 && all_dec_digits(body) && digits_val(body) <= u64::MAX {
        Some(digits_val(body) as u64)
    } else {
        None
    }
}

/// Parses a decimal `u64` with the same acceptance rule as the standard
/// library: an optional leading `+`, then one or more digits, rejecting
/// values that overflow.
pub fn parse_u64(s: &str) -> (r: Option<u64>)
    ensures
        r == parse_u64_text(s@),
{
    let n: usize = s.unicode_len();
    let start: usize = if n >= 1 && s.get_char(0) == '+' {
        1
    } else {
        0
    };
    let ghost body: Seq<char> = if s@.len() >= 1 && s@[0] == '+' {
        s@.subrange(1, s@.len() as int)
    } else {
        s@
    };
    if n == start {
        return None;
    }
    let mut acc: u64 = 0;
    let mut i: usize = start;
    while i < n
        invariant
            start <= i <= n,
            start == 0 || start == 1,
            n == s@.len(),
            start == 1 ==> s@.len() >= 1 && s@[0] == '+',
            start == 0 ==> !(s@.len() >= 1 && s@[0] == '+'),
            body == s@.subrange(start as int, n as int),
            all_dec_digits(s@.subrange(start as int, i as int)),
            acc == digits_val(s@.subrange(start as int, i as int)),
        decreases n - i,
    {
        let c: char = s.get_char(i);
        if c < '0' || c > '9' {
            proof {
                assert(0 <= i - start < body.len());
                assert(body[i - start] == s@[i as int]);
                assert(!is_dec_digit(body[i - start]));
                assert(!all_dec_digits(body));
                assert(body =~= (if s@.len() >= 1 && s@[0] == '+' {
                    s@.subrange(1, s@.len() as int)
                } else {
                    s@
                }));
            }
            return None;
        }
        let d: u64 = (c as u32 as u64) - 48;
        let next: u64 = match acc.checked_mul(10) {
            Some(t) => match t.checked_add(d) {
                Some(v) => v,
                None => {
                    proof {
                        assert(digit_val(s@[i as int]) == d);
                        assert(body =~= (if s@.len() >= 1 && s@[0] == '+' {
                            s@.subrange(1, s@.len() as int)
                        } else {
                            s@
                        }));
                        if all_dec_digits(body) {
                            lemma_digits_prefix_overflow(s@, start as int, i as int);
                        }
                    }
                    return None;
                },
            },
            None => {
                proof {
                    assert(digit_val(s@[i as int]) == d && d >= 0);
                    assert(body =~= (if s@.len() >= 1 && s@[0] == '+' {
                        s@.subrange(1, s@.len() as int)
                    } else {
                        s@
                    }));
                    if all_dec_digits(body) {
                        lemma_digits_prefix_overflow(s@, start as int, i as int);
                    }
                }
                return None;
            },
        };
        proof {
            let pre = s@.subrange(start as int, i as int);
            let ext = s@.subrange(start as int, i + 1);
            assert(ext.drop_last() =~= pre);
            assert(ext.last() == s@[i as int]);
        }
        acc = next;
        i = i + 1;
    }
    proof {
        assert(s@.subrange(start as int, n as int) =~= body);
    }
    Some(acc)
}

/// A digit string strictly longer than a prefix that already exceeds what a
/// further digit could keep within `u64::MAX` denotes a value above
/// `u64::MAX`.
proof fn lemma_digits_prefix_overflow(s: Seq<char>, start: int, i: int)
    requires
        0 <= start <= i < s.len(),
        digits_val(s.subrange(start, i)) * 10 + digit_val(s[i]) > u64::MAX,
        all_dec_digits(s.subrange(start, i)),
        is_dec_digit(s[i]),
        all_dec_digits(s.subrange(start, s.len() as int)),
    ensures
        digits_val(s.subrange(start, s.len() as int)) > u64::MAX,
{
    lemma_digits_val_monotonic(s, start, i + 1, s.len() as int);
    assert(s.subrange(start, i + 1).drop_last() =~= s.subrange(start, i));
    assert(s.subrange(start, i + 1).last() == s[i]);
}

/// Appending digits never decreases the value of a digit string.
proof fn lemma_digits_val_monotonic(s: Seq<char>, start: int, i: int, j: int)
    requires
        0 <= start <= i <= j <= s.len(),
        all_dec_digits(s.subrange(start, s.len() as int)),
    ensures
        digits_val(s.subrange(start, j)) >= digits_val(s.subrange(start, i)),
        digits_val(s.subrange(start, i)) >= 0,
    decreases j - i,
{
    lemma_digits_val_nonneg(s, start, i);
    if i < j {
        lemma_digits_val_monotonic(s, start, i, j - 1);
        assert(s.subrange(start, j).drop_last() =~= s.subrange(start, j - 1));
        let whole = s.subrange(start, s.len() as int);
        assert(whole[j - 1 - start] == s[j - 1]);
        assert(is_dec_digit(s[j - 1]));
        assert(digits_val(s.subrange(start, j)) == digits_val(s.subrange(start, j - 1)) * 10
            + digit_val(s[j - 1]));
    }
}

/// A digit string denotes a non-negative value.
proof fn lemma_digits_val_nonneg(s: Seq<char>, start: int, i: int)
    requires
        0 <= start <= i <= s.len(),
        all_dec_digits(s.subrange(start, s.len() as int)),
    ensures
        digits_val(s.subrange(start, i)) >= 0,
    decreases i - start,
{
    if start < i {
        lemma_digits_val_nonneg(s, start, i - 1);
        assert(s.subrange(start, i).drop_last() =~= s.subrange(start, i - 1));
        let whole = s.subrange(start, s.len() as int);
        assert(whole[i - 1 - start] == s[i - 1]);
        assert(is_dec_digit(s[i - 1]));
    }
}

pub open spec fn dec_digit_char(d: int) -> char {
    if d == 0 {
        '0'
    } else if d == 1 {
        '1'
    } else if d == 2 {
        '2'
    } else if d == 3 {
        '3'
    } else if d == 4 {
        '4'
    } else if d == 5 {
        '5'
    } else if d == 6 {
        '6'
    } else if d == 7 {
        '7'
    } else if d == 8 {
        '8'
    } else {
        '9'
    }
}

/// The decimal rendering of a non-negative integer, no leading zeroes.
pub open spec fn dec_text(n: int) -> Seq<char>
    decreases n,
{
    if n < 10 {
        seq![dec_digit_char(n)]
    } else {
        dec_text(n / 10).push(dec_digit_char(n % 10))
    }
}

/// The decimal rendering of an integer, `-` sign included.
pub open spec fn int_text(v: int) -> Seq<char> {
    if v < 0 {
        seq!['-'].add(dec_text(-v))
    } else {
        dec_text(v)
    }
}

/// The single-character string of one decimal digit.
fn digit_str(d: u64) -> (r: &'static str)
    requires
        d < 10,
    ensures
        r@ =~= seq![dec_digit_char(d as int)],
{
    proof {
        reveal_strlit("0");
        reveal_strlit("1");
        reveal_strlit("2");
        reveal_strlit("3");
        reveal_strlit("4");
        reveal_strlit("5");
        reveal_strlit("6");
        reveal_strlit("7");
        reveal_strlit("8");
        reveal_strlit("9");
    }
    if d == 0 {
        "0"
    } else if d == 1 {
        "1"
    } else if d == 2 {
        "2"
    } else if d == 3 {
        "3"
    } else if d == 4 {
        "4"
    } else if d == 5 {
        "5"
    } else if d == 6 {
        "6"
    } else if d == 7 {
        "7"
    } else if d == 8 {
        "8"
    } else {
        "9"
    }
}

/// Renders a `u64` in decimal.
pub fn u64_to_string(n: u64) -> (r: String)
    ensures
        r@ == dec_text(n as int),
    decreases n,
{
    if n < 10 {
        digit_str(n).to_owned()
    } else {
        let mut s: String = u64_to_string(n / 10);
        s.append(digit_str(n % 10));
        proof {
            assert(s@ =~= dec_text(n as int / 10).push(dec_digit_char(n as int % 10)));
        }
        s
    }
}

/// The second of the local day that an epoch second falls on, under a fixed
/// offset from UTC.
pub open spec fn day_seconds(ts: int, utc_offset_seconds: int) -> int {
    (ts + utc_offset_seconds) % 86400
}

/// A wall-clock label in 12-hour form with no leading zero on the hour, such
/// as `3:05 PM`, for a given second of the day.
pub open spec fn clock_label_text(sod: int) -> Seq<char> {
    let hour = sod / 3600;
    let minute = (sod % 3600) / 60;
    let hour12 = if hour % 12 == 0 {
        12int
    } else {
        hour % 12
    };
    let suffix = if hour < 12 {
        " AM"@
    } else {
        " PM"@
    };
    dec_text(hour12) + ":"@ + seq![dec_digit_char(minute / 10), dec_digit_char(minute % 10)]
        + suffix
}

/// A 24-hour `HH:MM` label, zero-padded, for a given second of the day.
pub open spec fn hhmm_text(sod: int) -> Seq<char> {
    let hour = sod / 3600;
    let minute = (sod % 3600) / 60;
    seq![
        dec_digit_char(hour / 10),
        dec_digit_char(hour % 10),
        ':',
        dec_digit_char(minute / 10),
        dec_digit_char(minute % 10),
    ]
}

/// Renders the 12-hour wall-clock label of a second of the day.
pub fn clock_label_of_day_seconds(sod: u64) -> (r: String)
    requires
        sod < 86400,
    ensures
        r@ == clock_label_text(sod as int),
{
    let hour: u64 = sod / 3600;
    let minute: u64 = (sod % 3600) / 60;
    let hour12: u64 = if hour % 12 == 0 {
        12
    } else {
        hour % 12
    };
    let mut s: String = u64_to_string(hour12);
    s.append(":");
    s.append(digit_str(minute / 10));
    s.append(digit_str(minute % 10));
    if hour < 12 {
        s.append(" AM");
    } else {
        s.append(" PM");
    }
    proof {
        reveal_strlit(":");
        reveal_strlit(" AM");
        reveal_strlit(" PM");
        assert(s@ =~= clock_label_text(sod as int));
    }
    s
}

/// The 12-hour local wall-clock label of an epoch second, under a fixed
/// offset from UTC.
pub fn clock_label(ts: i64, utc_offset_seconds: i32) -> (r: String)
    requires
        i64::MIN + 86400 < ts < i64::MAX - 86400,
        -86400 < utc_offset_seconds < 86400,
    ensures
        r@ == clock_label_text(day_seconds(ts as int, utc_offset_seconds as int)),
{
    let shifted: i64 = ts + (utc_offset_seconds as i64);
    let sod: i64 = shifted.checked_rem_euclid(86400).unwrap_or(0);
    clock_label_of_day_seconds(sod as u64)
}

/// The 24-hour `HH:MM` label of an epoch second in UTC; together with the
/// calendar date label this is how exported rows show their time of day.
pub fn utc_time_label(ts: i64) -> (r: String)
    ensures
        r@ == hhmm_text(ts as int % 86400),
{
    let sod: i64 = ts.checked_rem_euclid(86400).unwrap_or(0);
    let hour: u64 = sod as u64 / 3600;
    let minute: u64 = (sod as u64 % 3600) / 60;
    let mut s: String = digit_str(hour / 10).to_owned();
    s.append(digit_str(hour % 10));
    s.append(":");
    s.append(digit_str(minute / 10));
    s.append(digit_str(minute % 10));
    proof {
        reveal_strlit(":");
        assert(s@ =~= hhmm_text(ts as int % 86400));
    }
    s
}

/// Renders an `i32` in decimal, with a `-` sign when negative.
pub fn i32_to_string(v: i32) -> (r: String)
    ensures
        r@ == int_text(v as int),
{
    if v >= 0 {
        u64_to_string(v as u64)
    } else {
        let mag: u64 = (-(v as i64)) as u64;
        let mut s: String = "-".to_owned();
        let rest: String = u64_to_string(mag);
        s.append(rest.as_str());
        proof {
            reveal_strlit("-");
            assert(s@ =~= seq!['-'].add(dec_text(-(v as int))));
        }
        s
    }
}

} // verus!
