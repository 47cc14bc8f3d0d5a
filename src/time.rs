//! Reading the site's chapter dates: relative ages such as "5 phút trước"
//! and absolute dates `dd/mm/yy`, as seconds since the Unix epoch.
use vstd::prelude::*;
use vstd::utf8::encode_utf8;

verus! {

/// An ASCII decimal digit.
pub open spec fn is_digit(b: u8) -> bool {
    48 <= b <= 57
}

/// How many ASCII digits the bytes start with.
pub open spec fn digit_count(b: Seq<u8>) -> nat
    decreases b.len(),
{
    if b.len() > 0 && is_digit(b[0]) {
        1 + digit_count(b.drop_first())
    } else {
        0
    }
}

/// The number that a run of ASCII digits writes.
pub open spec fn digits_value(d: Seq<u8>) -> int
    decreases d.len(),
{
    if d.len() == 0 {
        0
    } else {
        digits_value(d.drop_last()) * 10 + (d.last() - 48)
    }
}

/// Ten to the power `n`.
pub open spec fn pow10(n: nat) -> int
    decreases n,
{
    if n == 0 {
        1
    } else {
        10 * pow10((n - 1) as nat)
    }
}

/// The length in seconds of the unit that an age text ends with, from a
/// second to a year of 365 days; 0 for any other ending.
pub open spec fn unit_seconds(rest: Seq<u8>) -> int {
    if rest == encode_utf8(" giây trước"@) {
        1
    } else if rest == encode_utf8(" phút trước"@) {
        60
    } else if rest == encode_utf8(" giờ trước"@) {
        3600
    } else if rest == encode_utf8(" ngày trước"@) {
        86400
    } else if rest == encode_utf8(" tuần trước"@) {
        604800
    } else if rest == encode_utf8(" tháng trước"@) {
        2592000
    } else if rest == encode_utf8(" năm trước"@) {
        31536000
    } else {
        0
    }
}

/// The age that a text "N unit trước" gives, with one to nine digits.
pub open spec fn age_seconds(b: Seq<u8>) -> Option<int> {
    let n = digit_count(b);
    let u = unit_seconds(b.subrange(n as int, b.len() as int));
    if 1 <= n <= 9 && u > 0 {
        Some(digits_value(b.subrange(0, n as int)) * u)
    } else {
        None
    }
}

/// The day number, counted from 1970-01-01, of a date of the proleptic
/// Gregorian calendar in a year from 1.
pub open spec fn days_from_civil(y: int, m: int, d: int) -> int {
    let y2 = if m <= 2 { y - 1 } else { y };
    let era = y2 / 400;
    let yoe = y2 - era * 400;
    let mp = if m > 2 { m - 3 } else { m + 9 };
    let doy = (153 * mp + 2) / 5 + d - 1;
    let doe = yoe * 365 + yoe / 4 - yoe / 100 + doy;
    era * 146097 + doe - 719468
}

/// The value of two ASCII digits.
pub open spec fn two_digits(a: u8, b: u8) -> int {
    (a - 48) * 10 + (b - 48)
}

/// The start (UTC) of the day that a text `dd/mm/yy` names, in the years
/// 2000 to 2099, with a day from 1 to 31 and a month from 1 to 12.
pub open spec fn date_seconds(b: Seq<u8>) -> Option<int> {
    if b.len() == 8 && is_digit(b[0]) && is_digit(b[1]) && b[2] == 47 && is_digit(b[3]) && is_digit(b[4])
        && b[5] == 47 && is_digit(b[6]) && is_digit(b[7]) {
        let d = two_digits(b[0], b[1]);
        let m = two_digits(b[3], b[4]);
        let y = 2000 + two_digits(b[6], b[7]);
        if 1 <= d <= 31 && 1 <= m <= 12 {
            Some(days_from_civil(y, m, d) * 86400)
        } else {
            None
        }
    } else {
        None
    }
}

/// The time, in seconds since the epoch, that a date text of the site
/// stands for, given the time now: now less the age for an age text, the
/// day's start for a date; 0 for any other text, or where the result does
/// not fit in an `i64`.
pub open spec fn timestamp_of(b: Seq<u8>, now: int) -> int {
    match age_seconds(b) {
        Some(a) => if i64::MIN <= now - a <= i64::MAX { now - a } else { 0 },
        None => match date_seconds(b) {
            Some(t) => t,
            None => 0,
        },
    }
}

proof fn lemma_digit_count(b: Seq<u8>, i: int)
    requires
        0 <= i <= b.len(),
        forall|k: int| 0 <= k < i ==> is_digit(#[trigger] b[k]),
    ensures
        digit_count(b) >= i,
        (i == b.len() || !is_digit(b[i])) ==> digit_count(b) == i,
    decreases i,
{
    if i > 0 {
        let t = b.drop_first();
        assert forall|k: int| 0 <= k < i - 1 implies is_digit(#[trigger] t[k]) by {
            assert(t[k] == b[k + 1]);
        }
        lemma_digit_count(t, i - 1);
        if i < b.len() {
            assert(t[i - 1] == b[i]);
        }
    } else if b.len() > 0 {
        assert(b[0] == b[i]);
    }
}

/// Whether `b` from `start` on equals `lit`.
fn tail_equals(b: &[u8], start: usize, lit: &[u8]) -> (r: bool)
    requires
        start <= b@.len(),
    ensures
        r == (b@.subrange(start as int, b@.len() as int) == lit@),
{
    if b.len() - start != lit.len() {
        return false;
    }
    let mut k: usize = 0;
    while k < lit.len()
        invariant
            start + lit@.len() == b@.len(),
            b@.len() == b.len(),
            k <= lit@.len(),
            forall|j: int| 0 <= j < k ==> b@[start + j] == lit@[j],
        decreases lit@.len() - k,
    {
        let pos = start + k;
        if b[pos] != lit[k] {
            assert(b@.subrange(start as int, b@.len() as int)[k as int] != lit@[k as int]);
            return false;
        }
        k = k + 1;
    }
    assert(b@.subrange(start as int, b@.len() as int) =~= lit@);
    true
}

fn unit_seconds_exec(b: &[u8], start: usize) -> (r: i64)
    requires
        start <= b@.len(),
    ensures
        r == unit_seconds(b@.subrange(start as int, b@.len() as int)),
{
    if tail_equals(b, start, " giây trước".as_bytes()) {
        1
    } else if tail_equals(b, start, " phút trước".as_bytes()) {
        60
    } else if tail_equals(b, start, " giờ trước".as_bytes()) {
        3600
    } else if tail_equals(b, start, " ngày trước".as_bytes()) {
        86400
    } else if tail_equals(b, start, " tuần trước".as_bytes()) {
        604800
    } else if tail_equals(b, start, " tháng trước".as_bytes()) {
        2592000
    } else if tail_equals(b, start, " năm trước".as_bytes()) {
        31536000
    } else {
        0
    }
}

fn age_seconds_exec(b: &[u8]) -> (r: Option<i64>)
    ensures
        r matches Some(a) ==> age_seconds(b@) == Some(a as int),
        r is None ==> age_seconds(b@) is None,
{
    let mut i: usize = 0;
    let mut v: i64 = 0;
    while i < b.len() && i < 10 && 48 <= b[i] && b[i] <= 57
        invariant
            i <= b@.len(),
            i <= 10,
            forall|k: int| 0 <= k < i ==> is_digit(#[trigger] b@[k]),
            i <= 9 ==> v == digits_value(b@.subrange(0, i as int)),
            i <= 9 ==> 0 <= v < pow10(i as nat),
        decreases b@.len() - i,
    {
        if i < 9 {
            proof {
                let d = b@.subrange(0, i + 1);
                assert(d.drop_last() =~= b@.subrange(0, i as int));
                assert(d.last() == b@[i as int]);
                reveal_with_fuel(pow10, 10);
                assert(pow10(i as nat) <= 100000000);
                assert(pow10((i + 1) as nat) == 10 * pow10(i as nat));
            }
            v = v * 10 + (b[i] - 48) as i64;
        }
        i = i + 1;
    }
    proof {
        lemma_digit_count(b@, i as int);
    }
    if i == 0 || i > 9 {
        return None;
    }
    let u = unit_seconds_exec(b, i);
    if u == 0 {
        return None;
    }
    proof {
        reveal_with_fuel(pow10, 10);
        assert(pow10(i as nat) <= 1000000000);
        assert(0 <= v * u <= 1000000000 * 31536000) by (nonlinear_arith)
            requires
                0 <= v < 1000000000,
                0 <= u <= 31536000,
        ;
    }
    Some(v * u)
}

fn days_from_civil_exec(y: i64, m: i64, d: i64) -> (r: i64)
    requires
        2000 <= y <= 2099,
        1 <= m <= 12,
        1 <= d <= 31,
    ensures
        r == days_from_civil(y as int, m as int, d as int),
{
    let y2 = if m <= 2 { y - 1 } else { y };
    let era = y2 / 400;
    let yoe = y2 - era * 400;
    let mp = if m > 2 { m - 3 } else { m + 9 };
    let doy = (153 * mp + 2) / 5 + d - 1;
    let doe = yoe * 365 + yoe / 4 - yoe / 100 + doy;
    era * 146097 + doe - 719468
}

fn date_seconds_exec(b: &[u8]) -> (r: Option<i64>)
    ensures
        r matches Some(t) ==> date_seconds(b@) == Some(t as int),
        r is None ==> date_seconds(b@) is None,
{
    if b.len() != 8 {
        return None;
    }
    let digits_ok = 48 <= b[0] && b[0] <= 57 && 48 <= b[1] && b[1] <= 57 && b[2] == 47 && 48 <= b[3]
        && b[3] <= 57 && 48 <= b[4] && b[4] <= 57 && b[5] == 47 && 48 <= b[6] && b[6] <= 57
        && 48 <= b[7] && b[7] <= 57;
    if !digits_ok {
        return None;
    }
    let d = ((b[0] - 48) as i64) * 10 + (b[1] - 48) as i64;
    let m = ((b[3] - 48) as i64) * 10 + (b[4] - 48) as i64;
    let y = 2000 + ((b[6] - 48) as i64) * 10 + (b[7] - 48) as i64;
    if d < 1 || d > 31 || m < 1 || m > 12 {
        return None;
    }
    let days = days_from_civil_exec(y, m, d);
    Some(days * 86400)
}

/// The time, in seconds since the epoch, of a date text of the site, given
/// the time now in seconds since the epoch: now less the age for "N unit
/// trước" (second, minute, hour, day, week, month of 30 days, year of 365
/// days), the day's start (UTC) for `dd/mm/yy`, and 0 for any other text.
pub fn convert_time(text: &str, now: i64) -> (r: i64)
    ensures
        r == timestamp_of(encode_utf8(text@), now as int),
{
    let b = text.as_bytes();
    match age_seconds_exec(b) {
        Some(a) => {
            let t: i128 = now as i128 - a as i128;
            if i64::MIN as i128 <= t && t <= i64::MAX as i128 {
                t as i64
            } else {
                0
            }
        },
        None => match date_seconds_exec(b) {
            Some(t) => t,
            None => 0,
        },
    }
}

} // verus!
