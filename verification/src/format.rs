//! Numbers, dates and addresses as text.

use crate::address::Address;
use vstd::prelude::*;

verus! {

/// ASCII `0`.
pub const ZERO: u8 = 0x30;

/// ASCII `-`.
pub const MINUS: u8 = 0x2d;

/// ASCII `.`.
pub const DOT: u8 = 0x2e;

/// ASCII `:`.
pub const COLON: u8 = 0x3a;

/// ASCII space.
pub const SPACE: u8 = 0x20;

/// A timestamp under this value is taken for a ledger sequence.
pub const FIRST_TIMESTAMP: u64 = 1_000_000_000;

/// An address of at most this many bytes is shown whole.
pub const SHORT_ADDRESS: usize = 12;

/// The ASCII digit for `d`.
pub open spec fn digit_char(d: int) -> u8
    recommends
        0 <= d < 10,
{
    (ZERO + d) as u8
}

/// The decimal digits of `n`, most significant first, without leading zeros.
pub open spec fn decimal(n: nat) -> Seq<u8>
    decreases n,
{
    if n < 10 {
        seq![digit_char(n as int)]
    } else {
        decimal(n / 10).push(digit_char((n % 10) as int))
    }
}

/// The decimal digits of `n`, after a minus sign where `n` is negative.
pub open spec fn signed_decimal(n: int) -> Seq<u8> {
    if n < 0 {
        seq![MINUS] + decimal((-n) as nat)
    } else {
        decimal(n as nat)
    }
}

/// The number that the decimal digits `s` stand for.
pub open spec fn decimal_value(s: Seq<u8>) -> nat
    decreases s.len(),
{
    if s.len() == 0 {
        0
    } else {
        (decimal_value(s.drop_last()) * 10 + (s.last() - ZERO)) as nat
    }
}

/// The two digits of `v`, for `v` under a hundred.
pub open spec fn two_digits(v: int) -> Seq<u8> {
    seq![digit_char((v / 10) % 10), digit_char(v % 10)]
}

/// The last four digits of `v`.
pub open spec fn four_digits(v: int) -> Seq<u8> {
    seq![
        digit_char((v / 1000) % 10),
        digit_char((v / 100) % 10),
        digit_char((v / 10) % 10),
        digit_char(v % 10),
    ]
}

/// `Ledger `, as bytes.
pub open spec fn ledger_prefix() -> Seq<u8> {
    seq![0x4c, 0x65, 0x64, 0x67, 0x65, 0x72, SPACE]
}

/// ` UTC`, as bytes.
pub open spec fn utc_suffix() -> Seq<u8> {
    seq![SPACE, 0x55, 0x54, 0x43]
}

/// The text for the timestamp `t`: `Ledger ` and the number for a ledger
/// sequence, `YYYY-MM-DD HH:MM:SS UTC` for seconds since 1970.
pub open spec fn timestamp_text(t: u64) -> Seq<u8> {
    if t < FIRST_TIMESTAMP {
        ledger_prefix() + decimal(t as nat)
    } else {
        let date = civil_from_days(t as int / 86400);
        four_digits(date.0) + seq![MINUS] + two_digits(date.1) + seq![MINUS] + two_digits(date.2)
            + seq![SPACE] + two_digits((t as int / 3600) % 24) + seq![COLON] + two_digits(
            (t as int / 60) % 60,
        ) + seq![COLON] + two_digits(t as int % 60) + utc_suffix()
    }
}

/// The address as it is shown where room is short: whole if it has at most
/// twelve bytes, else its first four bytes, three dots and its last four.
pub open spec fn truncated(a: Seq<u8>) -> Seq<u8> {
    if a.len() <= SHORT_ADDRESS {
        a
    } else {
        a.take(4) + seq![DOT, DOT, DOT] + a.skip(a.len() - 4)
    }
}

/// Whether `y` is a leap year of the Gregorian calendar.
pub open spec fn leap_year(y: int) -> bool {
    y % 4 == 0 && (y % 100 != 0 || y % 400 == 0)
}

/// The number of days of month `m` in year `y`.
pub open spec fn days_in_month(y: int, m: int) -> int {
    if m == 2 {
        if leap_year(y) {
            29
        } else {
            28
        }
    } else if m == 4 || m == 6 || m == 9 || m == 11 {
        30
    } else {
        31
    }
}

/// The number of days from 1 January 1970 to the day `d` of month `m` of
/// year `y` in the Gregorian calendar; negative for earlier days.
pub open spec fn days_from_civil(y: int, m: int, d: int) -> int {
    let yy = if m <= 2 {
        y - 1
    } else {
        y
    };
    let era = yy / 400;
    let yoe = yy - era * 400;
    let mp = if m > 2 {
        m - 3
    } else {
        m + 9
    };
    let doy = (153 * mp + 2) / 5 + d - 1;
    let doe = yoe * 365 + yoe / 4 - yoe / 100 + doy;
    era * 146097 + doe - 719468
}

/// `date` is a date of the Gregorian calendar: a year, a month from 1 to 12
/// and a day from 1 to the length of that month in that year.
pub open spec fn valid_date(date: (int, int, int)) -> bool {
    1 <= date.1 <= 12 && 1 <= date.2 <= days_in_month(date.0, date.1)
}

/// The day after `date`.
pub open spec fn next_day(date: (int, int, int)) -> (int, int, int) {
    let (y, m, d) = date;
    if d < days_in_month(y, m) {
        (y, m, d + 1)
    } else if m < 12 {
        (y, m + 1, 1)
    } else {
        (y + 1, 1, 1)
    }
}

/// The year, month and day of the Gregorian calendar that lie `days` days
/// after 1 January 1970.
///
/// The days are counted in eras of 400 years that begin on 1 March, so that
/// the leap day is the last day of a year, of a cycle of four years, of a
/// century and of an era. An era has four centuries of 36524 days and one day
/// more; a century has 25 cycles of 1461 days, less one day; a cycle has four
/// years of 365 days and one day more.
pub open spec fn civil_from_days(days: int) -> (int, int, int) {
    let z = days + 719468;
    let era = z / 146097;
    let day_of_era = z - era * 146097;
    let century = if day_of_era / 36524 > 3 {
        3
    } else {
        day_of_era / 36524
    };
    let day_of_century = day_of_era - century * 36524;
    let cycle = day_of_century / 1461;
    let day_of_cycle = day_of_century - cycle * 1461;
    let year_of_cycle = if day_of_cycle / 365 > 3 {
        3
    } else {
        day_of_cycle / 365
    };
    let day_of_year = day_of_cycle - year_of_cycle * 365;
    let year_of_era = century * 100 + cycle * 4 + year_of_cycle;
    let mp = (5 * day_of_year + 2) / 153;
    let d = day_of_year - (153 * mp + 2) / 5 + 1;
    let m = if mp < 10 {
        mp + 3
    } else {
        mp - 9
    };
    let y = year_of_era + era * 400 + if m <= 2 {
        1int
    } else {
        0int
    };
    (y, m, d)
}

/// The digits of a number of two or more digits: those of its tenth, then
/// its last digit.
proof fn lemma_decimal_step(rest: nat)
    requires
        rest >= 10,
    ensures
        decimal(rest) == decimal(rest / 10).push(digit_char((rest % 10) as int)),
{
}

/// The decimal digits of `n`.
fn decimal_digits(n: u128) -> (digits: Vec<u8>)
    ensures
        digits@ == decimal(n as nat),
{
    // The digits from the least significant up.
    let mut reversed: Vec<u8> = Vec::new();
    let mut rest: u128 = n;
    while rest >= 10
        invariant
            decimal(n as nat) == decimal(rest as nat) + reversed@.reverse(),
        decreases rest,
    {
        let d = (rest % 10) as u8;
        let ghost before = reversed@;
        reversed.push(ZERO + d);
        proof {
            lemma_decimal_step(rest as nat);
            assert(reversed@.reverse() =~= seq![digit_char((rest % 10) as int)] + before.reverse());
            assert(decimal(rest as nat) + before.reverse() =~= decimal((rest / 10) as nat)
                + reversed@.reverse());
        }
        rest = rest / 10;
    }
    let mut digits: Vec<u8> = Vec::new();
    digits.push(ZERO + rest as u8);
    assert(digits@ =~= decimal(rest as nat));
    let mut i: usize = reversed.len();
    while i > 0
        invariant
            i <= reversed@.len(),
            digits@ == decimal(rest as nat) + reversed@.reverse().take(reversed@.len() - i),
        decreases i,
    {
        i -= 1;
        let ghost before = digits@;
        digits.push(reversed[i]);
        proof {
            let r = reversed@.reverse();
            let k = reversed@.len() - i - 1;
            assert(r[k] == reversed@[i as int]);
            assert(r.take(k + 1) =~= r.take(k).push(r[k]));
            assert(digits@ =~= decimal(rest as nat) + r.take(k + 1));
        }
    }
    assert(reversed@.reverse().take(reversed@.len() as int) =~= reversed@.reverse());
    digits
}

/// The decimal digits of `n`.
pub fn u64_to_bytes(n: u64) -> (text: Vec<u8>)
    ensures
        text@ == decimal(n as nat),
{
    decimal_digits(n as u128)
}

/// The decimal digits of `n`, after a minus sign where `n` is negative.
pub fn i128_to_bytes(n: i128) -> (text: Vec<u8>)
    ensures
        text@ == signed_decimal(n as int),
{
    if n >= 0 {
        decimal_digits(n as u128)
    } else {
        // -(n + 1) fits where -n does not.
        let magnitude: u128 = (-(n + 1)) as u128 + 1;
        let digits = decimal_digits(magnitude);
        let mut text: Vec<u8> = Vec::new();
        text.push(MINUS);
        let mut i: usize = 0;
        while i < digits.len()
            invariant
                i <= digits@.len(),
                text@ == seq![MINUS] + digits@.take(i as int),
            decreases digits.len() - i,
        {
            text.push(digits[i]);
            assert(digits@.take(i as int + 1) =~= digits@.take(i as int).push(digits@[i as int]));
            i += 1;
        }
        assert(digits@.take(digits@.len() as int) =~= digits@);
        text
    }
}

/// The year, month and day of the Gregorian calendar that lie `days` days
/// after 1 January 1970.
pub fn days_to_date(days: i64) -> (date: (i64, u8, u8))
    ensures
        (date.0 as int, date.1 as int, date.2 as int) == civil_from_days(days as int),
        valid_date((date.0 as int, date.1 as int, date.2 as int)),
        days_from_civil(date.0 as int, date.1 as int, date.2 as int) == days,
{
    proof {
        law_date_round_trip(days as int);
    }
    let z: i128 = days as i128 + 719468;
    let era: i128 = if z >= 0 {
        z / 146097
    } else {
        -((146096 - z) / 146097)
    };
    assert(era == (z as int) / 146097);
    let day_of_era: i128 = z - era * 146097;
    let century: i128 = if day_of_era / 36524 > 3 {
        3
    } else {
        day_of_era / 36524
    };
    let day_of_century: i128 = day_of_era - century * 36524;
    let cycle: i128 = day_of_century / 1461;
    let day_of_cycle: i128 = day_of_century - cycle * 1461;
    let year_of_cycle: i128 = if day_of_cycle / 365 > 3 {
        3
    } else {
        day_of_cycle / 365
    };
    let day_of_year: i128 = day_of_cycle - year_of_cycle * 365;
    let year_of_era: i128 = century * 100 + cycle * 4 + year_of_cycle;
    let mp: i128 = (5 * day_of_year + 2) / 153;
    let d: i128 = day_of_year - (153 * mp + 2) / 5 + 1;
    let m: i128 = if mp < 10 {
        mp + 3
    } else {
        mp - 9
    };
    let y: i128 = year_of_era + era * 400 + if m <= 2 {
        1
    } else {
        0
    };
    (y as i64, m as u8, d as u8)
}

/// Appends the two digits of `v` to `text`.
fn push_two_digits(text: &mut Vec<u8>, v: u64)
    requires
        v < 100,
    ensures
        final(text)@ == old(text)@ + two_digits(v as int),
{
    text.push(ZERO + (v / 10) as u8);
    text.push(ZERO + (v % 10) as u8);
    assert(text@ =~= old(text)@ + two_digits(v as int));
}

/// The text for `timestamp`: `Ledger ` and the number where it is a ledger
/// sequence, the date and time of day in UTC where it counts seconds since
/// 1970.
pub fn format_timestamp(timestamp: u64) -> (text: Vec<u8>)
    ensures
        text@ == timestamp_text(timestamp),
{
    let mut text: Vec<u8> = Vec::new();
    if timestamp < FIRST_TIMESTAMP {
        text.push(0x4c);
        text.push(0x65);
        text.push(0x64);
        text.push(0x67);
        text.push(0x65);
        text.push(0x72);
        text.push(SPACE);
        assert(text@ =~= ledger_prefix());
        let digits = u64_to_bytes(timestamp);
        let mut i: usize = 0;
        while i < digits.len()
            invariant
                i <= digits@.len(),
                text@ == ledger_prefix() + digits@.take(i as int),
            decreases digits.len() - i,
        {
            text.push(digits[i]);
            assert(digits@.take(i as int + 1) =~= digits@.take(i as int).push(digits@[i as int]));
            i += 1;
        }
        assert(digits@.take(digits@.len() as int) =~= digits@);
        return text;
    }
    let seconds = timestamp % 60;
    let minutes = (timestamp / 60) % 60;
    let hours = (timestamp / 3600) % 24;
    let (year, month, day) = days_to_date((timestamp / 86400) as i64);
    assert(year >= 0);
    let y = year as u64;

    text.push(ZERO + ((y / 1000) % 10) as u8);
    text.push(ZERO + ((y / 100) % 10) as u8);
    text.push(ZERO + ((y / 10) % 10) as u8);
    text.push(ZERO + (y % 10) as u8);
    assert(text@ =~= four_digits(year as int));
    text.push(MINUS);
    push_two_digits(&mut text, month as u64);
    text.push(MINUS);
    push_two_digits(&mut text, day as u64);
    text.push(SPACE);
    push_two_digits(&mut text, hours);
    text.push(COLON);
    push_two_digits(&mut text, minutes);
    text.push(COLON);
    push_two_digits(&mut text, seconds);
    text.push(SPACE);
    text.push(0x55);
    text.push(0x54);
    text.push(0x43);
    assert(text@ =~= timestamp_text(timestamp));
    text
}

/// The address as it is shown where room is short.
pub fn truncate_address_bytes(address: &Address) -> (text: Vec<u8>)
    ensures
        text@ == truncated(address@),
{
    let full = address.as_bytes();
    let len = full.len();
    let mut text: Vec<u8> = Vec::new();
    if len <= SHORT_ADDRESS {
        let mut i: usize = 0;
        while i < len
            invariant
                len == full@.len(),
                i <= len,
                text@ == full@.take(i as int),
            decreases len - i,
        {
            text.push(full[i]);
            assert(full@.take(i as int + 1) =~= full@.take(i as int).push(full@[i as int]));
            i += 1;
        }
        assert(full@.take(len as int) =~= full@);
        return text;
    }
    text.push(full[0]);
    text.push(full[1]);
    text.push(full[2]);
    text.push(full[3]);
    text.push(DOT);
    text.push(DOT);
    text.push(DOT);
    text.push(full[len - 4]);
    text.push(full[len - 3]);
    text.push(full[len - 2]);
    text.push(full[len - 1]);
    assert(text@ =~= truncated(full@));
    text
}

/// Day zero is 1 January 1970.
pub proof fn law_epoch()
    ensures
        civil_from_days(0) == (1970int, 1int, 1int),
        days_from_civil(1970, 1, 1) == 0,
{
}

/// Every day has a date that exists, and that date is the one that lies
/// that many days after 1 January 1970.
pub proof fn law_date_round_trip(days: int)
    ensures
        valid_date(civil_from_days(days)),
        days_from_civil(
            civil_from_days(days).0,
            civil_from_days(days).1,
            civil_from_days(days).2,
        ) == days,
{
    let z = days + 719468;
    let era = z / 146097;
    let day_of_era = z - era * 146097;
    assert(0 <= day_of_era <= 146096);
    let century = if day_of_era / 36524 > 3 {
        3
    } else {
        day_of_era / 36524
    };
    assert(0 <= century <= 3);
    let day_of_century = day_of_era - century * 36524;
    assert(0 <= day_of_century <= 36524);
    assert(day_of_century == 36524 ==> century == 3);
    let cycle = day_of_century / 1461;
    assert(0 <= cycle <= 24);
    let day_of_cycle = day_of_century - cycle * 1461;
    assert(0 <= day_of_cycle <= 1460);
    assert(cycle == 24 && day_of_cycle == 1460 ==> century == 3);
    let year_of_cycle = if day_of_cycle / 365 > 3 {
        3
    } else {
        day_of_cycle / 365
    };
    assert(0 <= year_of_cycle <= 3);
    let day_of_year = day_of_cycle - year_of_cycle * 365;
    assert(0 <= day_of_year <= 365);
    assert(day_of_year == 365 ==> year_of_cycle == 3 && day_of_cycle == 1460);
    let year_of_era = century * 100 + cycle * 4 + year_of_cycle;
    assert(0 <= year_of_era <= 399);
    assert(year_of_era / 4 == century * 25 + cycle);
    assert(year_of_era / 100 == century);
    lemma_month_and_day(day_of_year);
    let mp = (5 * day_of_year + 2) / 153;
    let d = day_of_year - (153 * mp + 2) / 5 + 1;
    let m = if mp < 10 {
        mp + 3
    } else {
        mp - 9
    };
    let yy = year_of_era + era * 400;
    assert(yy / 400 == era);
    let y = yy + if m <= 2 {
        1int
    } else {
        0int
    };
    assert(civil_from_days(days) == (y, m, d));
    if m == 2 && d == 29 {
        assert(day_of_year == 365);
        assert(y == era * 400 + century * 100 + (cycle + 1) * 4);
        assert(y % 4 == 0);
        if cycle == 24 {
            assert(y == (era + 1) * 400);
            assert(y % 400 == 0);
        } else {
            assert(y % 100 != 0) by {
                assert(y == (era * 4 + century) * 100 + (cycle + 1) * 4);
            }
        }
        assert(leap_year(y));
    }
    assert(days_from_civil(y, m, d) == days) by {
        let mp2 = if m > 2 {
            m - 3
        } else {
            m + 9
        };
        assert(mp2 == mp);
        assert((153 * mp + 2) / 5 + d - 1 == day_of_year);
        assert(year_of_era * 365 + year_of_era / 4 - year_of_era / 100 + day_of_year
            == day_of_era);
    }
}

/// The month and the day of the month of the day `day_of_year` of a year
/// that begins on 1 March.
proof fn lemma_month_and_day(day_of_year: int)
    requires
        0 <= day_of_year <= 365,
    ensures
        ({
            let mp = (5 * day_of_year + 2) / 153;
            let d = day_of_year - (153 * mp + 2) / 5 + 1;
            &&& 0 <= mp <= 11
            &&& 1 <= d <= 31
            &&& (mp == 1 || mp == 3 || mp == 6 || mp == 8) ==> d <= 30
            &&& mp == 11 ==> d <= 29
            &&& mp == 11 && d == 29 ==> day_of_year == 365
        }),
{
    let mp = (5 * day_of_year + 2) / 153;
    assert(0 <= mp <= 11);
    if mp == 0 {
    } else if mp == 1 {
    } else if mp == 2 {
    } else if mp == 3 {
    } else if mp == 4 {
    } else if mp == 5 {
    } else if mp == 6 {
    } else if mp == 7 {
    } else if mp == 8 {
    } else if mp == 9 {
    } else if mp == 10 {
    } else {
    }
}

/// The day after a date is a date, and lies one day later.
pub proof fn law_next_day(date: (int, int, int))
    requires
        valid_date(date),
    ensures
        valid_date(next_day(date)),
        days_from_civil(next_day(date).0, next_day(date).1, next_day(date).2) == days_from_civil(
            date.0,
            date.1,
            date.2,
        ) + 1,
{
    let (y, m, d) = date;
    if d < days_in_month(y, m) {
    } else if m == 2 {
        // The last day of February: the year that began in March ends.
        let yy = y - 1;
        let era = yy / 400;
        let yoe = yy - era * 400;
        assert(0 <= yoe <= 399);
        if yoe == 399 {
            assert(y == (era + 1) * 400);
            assert(y % 400 == 0);
            assert(leap_year(y));
            assert(y / 400 == era + 1);
        } else {
            assert(y / 400 == era);
            assert(y - era * 400 == yoe + 1);
            assert(y % 4 == 0 <==> (yoe + 1) % 4 == 0);
            assert(y % 100 == 0 <==> (yoe + 1) % 100 == 0);
            assert(y % 400 != 0);
            assert((yoe + 1) / 4 - yoe / 4 == if (yoe + 1) % 4 == 0 {
                1int
            } else {
                0int
            });
            assert((yoe + 1) / 100 - yoe / 100 == if (yoe + 1) % 100 == 0 {
                1int
            } else {
                0int
            });
        }
    } else if m == 1 {
    } else if m == 3 {
    } else if m == 4 {
    } else if m == 5 {
    } else if m == 6 {
    } else if m == 7 {
    } else if m == 8 {
    } else if m == 9 {
    } else if m == 10 {
    } else if m == 11 {
    } else {
    }
}

/// The decimal digits of a number are digits, begin with a zero only for
/// zero itself, and stand for that number.
pub proof fn law_decimal_reads_back(n: nat)
    ensures
        decimal(n).len() >= 1,
        forall|i: int| 0 <= i < decimal(n).len() ==> ZERO <= #[trigger] decimal(n)[i] <= ZERO + 9,
        n > 0 ==> decimal(n)[0] != ZERO,
        decimal_value(decimal(n)) == n,
    decreases n,
{
    if n >= 10 {
        law_decimal_reads_back(n / 10);
        let head = decimal(n / 10);
        let all = decimal(n);
        assert(all.drop_last() =~= head);
        assert(all.last() == digit_char((n % 10) as int));
        assert(all[0] == head[0]);
        assert forall|i: int| 0 <= i < all.len() implies ZERO <= #[trigger] all[i] <= ZERO + 9 by {
            if i < head.len() {
                assert(all[i] == head[i]);
            }
        }
    } else {
        let all = decimal(n);
        assert(all.drop_last() =~= Seq::<u8>::empty());
        assert(decimal_value(all.drop_last()) == 0);
    }
}

} // verus!
