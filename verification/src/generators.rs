//! The date-time tag that generated identifiers carry.

use vstd::prelude::*;

use crate::formatting::{
    all_decimal_digits, decimal_digits, decimal_value, i128_text, int_text,
    lemma_decimal_digits_read_back, u128_text,
};
use crate::text::{push_char, push_str};

verus! {

/// The earliest UNIX timestamp in milliseconds that `chrono` represents as a
/// UTC date-time (January 1 of the year -262143).
pub const MIN_UTC_MILLIS: i64 = -8334601228800000;

/// The latest UNIX timestamp in milliseconds that `chrono` represents as a
/// UTC date-time (the last millisecond of the year 262142).
pub const MAX_UTC_MILLIS: i64 = 8210266876799999;

/// The proleptic Gregorian date (year, month, day) of a day number counted
/// from 1970-01-01 (negative before it); year 0 is 1 BC.
pub open spec fn civil_from_days(days: int) -> (int, int, int) {
    let z = days + 719468;
    let era = z / 146097;
    let doe = z - era * 146097;
    let yoe = (doe - doe / 1460 + doe / 36524 - doe / 146096) / 365;
    let doy = doe - (365 * yoe + yoe / 4 - yoe / 100);
    let mp = (5 * doy + 2) / 153;
    let day = doy - (153 * mp + 2) / 5 + 1;
    let month = if mp < 10 {
        mp + 3
    } else {
        mp - 9
    };
    let year = yoe + era * 400;
    (if month <= 2 {
        year + 1
    } else {
        year
    }, month, day)
}

/// The UTC calendar fields (year, month, day, hour, minute, second) of a UNIX
/// timestamp in milliseconds; the milliseconds are dropped, rounding towards
/// earlier times.
pub open spec fn utc_fields_of_millis(millis: int) -> (int, int, int, int, int, int) {
    let secs = millis / 1000;
    let date = civil_from_days(secs / 86400);
    let sod = secs % 86400;
    (date.0, date.1, date.2, sod / 3600, sod % 3600 / 60, sod % 60)
}

/// `chrono::DateTime::from_timestamp_millis`, read back through `Datelike` and
/// `Timelike` as year, month, day, hour, minute and second. Claimed of it: for
/// a timestamp in `chrono`'s range it gives a date-time, whose fields are the
/// proleptic Gregorian UTC calendar fields of the timestamp
/// (`utc_fields_of_millis`).
#[verifier::external_body]
fn utc_fields(millis: i64) -> (r: (i32, u32, u32, u32, u32, u32))
    requires
        MIN_UTC_MILLIS <= millis <= MAX_UTC_MILLIS,
    ensures
        (r.0 as int, r.1 as int, r.2 as int, r.3 as int, r.4 as int, r.5 as int)
            == utc_fields_of_millis(millis as int),
{
    let dt = chrono::DateTime::from_timestamp_millis(millis).unwrap();
    (
        chrono::Datelike::year(&dt),
        chrono::Datelike::month(&dt),
        chrono::Datelike::day(&dt),
        chrono::Timelike::hour(&dt),
        chrono::Timelike::minute(&dt),
        chrono::Timelike::second(&dt),
    )
}

/// A number written with at least two digits, a zero in front of a single
/// digit (as `{:02}` writes it).
pub open spec fn zero_padded2(n: nat) -> Seq<char> {
    if n < 10 {
        seq!['0'] + decimal_digits(n)
    } else {
        decimal_digits(n)
    }
}

/// The tag "YYYYMMDD-HHMMSS" of calendar fields: the year as written by
/// `Display`, the other fields with two digits at least.
pub open spec fn datetime_tag_text(f: (int, int, int, int, int, int)) -> Seq<char> {
    int_text(f.0) + zero_padded2(f.1 as nat) + zero_padded2(f.2 as nat) + seq!['-']
        + zero_padded2(f.3 as nat) + zero_padded2(f.4 as nat) + zero_padded2(f.5 as nat)
}

fn push_zero_padded2(s: &mut String, n: u32)
    ensures
        final(s)@ == old(s)@ + zero_padded2(n as nat),
{
    if n < 10 {
        push_char(s, '0');
    }
    let digits = u128_text(n as u128);
    push_str(s, digits.as_str());
    assert(final(s)@ =~= old(s)@ + zero_padded2(n as nat));
}

/// The tag of calendar fields, such as "20240115-093005".
pub fn datetime_tag(year: i32, month: u32, day: u32, hour: u32, minute: u32, second: u32) -> (r:
    String)
    ensures
        r@ == datetime_tag_text(
            (year as int, month as int, day as int, hour as int, minute as int, second as int),
        ),
{
    let mut s = i128_text(year as i128);
    push_zero_padded2(&mut s, month);
    push_zero_padded2(&mut s, day);
    push_char(&mut s, '-');
    push_zero_padded2(&mut s, hour);
    push_zero_padded2(&mut s, minute);
    push_zero_padded2(&mut s, second);
    s
}

/// The UTC date-time tag of a UNIX timestamp in milliseconds, such as
/// "19700101-000000" for 0. The timestamp, read as a signed 64-bit number,
/// must be in `chrono`'s range.
pub fn get_datetime_tag(unix_ms: u64) -> (r: String)
    requires
        MIN_UTC_MILLIS <= unix_ms as i64 <= MAX_UTC_MILLIS,
    ensures
        r@ == datetime_tag_text(utc_fields_of_millis((unix_ms as i64) as int)),
{
    let millis = unix_ms as i64;
    let (year, month, day, hour, minute, second) = utc_fields(millis);
    datetime_tag(year, month, day, hour, minute, second)
}

/// The UNIX epoch is 1970-01-01 00:00:00 UTC, so its tag is "19700101-000000".
pub proof fn lemma_epoch_fields()
    ensures
        utc_fields_of_millis(0) == (1970int, 1int, 1int, 0int, 0int, 0int),
        datetime_tag_text(utc_fields_of_millis(0)) == seq![
            '1',
            '9',
            '7',
            '0',
            '0',
            '1',
            '0',
            '1',
            '-',
            '0',
            '0',
            '0',
            '0',
            '0',
            '0',
        ],
{
    reveal_with_fuel(decimal_digits, 4);
    assert(decimal_digits(1970) =~= seq!['1', '9', '7', '0']);
    assert(decimal_digits(1) =~= seq!['1']);
    assert(decimal_digits(0) =~= seq!['0']);
    assert(datetime_tag_text(utc_fields_of_millis(0)) =~= seq![
        '1',
        '9',
        '7',
        '0',
        '0',
        '1',
        '0',
        '1',
        '-',
        '0',
        '0',
        '0',
        '0',
        '0',
        '0',
    ]);
}

/// A field below 100 is written with exactly two digits, which read back as
/// the field: a 0 in front of a single digit, no leading zero otherwise.
pub proof fn lemma_zero_padded2_two_digits(n: nat)
    requires
        n < 100,
    ensures
        zero_padded2(n).len() == 2,
        all_decimal_digits(zero_padded2(n)),
        decimal_value(zero_padded2(n)) == n,
        (zero_padded2(n)[0] == '0') == (n < 10),
{
    lemma_decimal_digits_read_back(n);
    let z = zero_padded2(n);
    if n < 10 {
        assert(decimal_digits(n) == seq![digit_char_of(n)]);
        assert(z.drop_last() =~= seq!['0']);
        assert(decimal_value(seq!['0']) == 0) by {
            assert(seq!['0'].drop_last() =~= Seq::<char>::empty());
            assert(decimal_value(seq!['0']) == decimal_value(seq!['0'].drop_last()) * 10 + (
            '0' as int - 48));
        }
        assert(decimal_value(z) == decimal_value(z.drop_last()) * 10 + (z.last() as int - 48));
    } else {
        assert(decimal_digits(n / 10) == seq![digit_char_of(n / 10)]);
        assert(z.drop_last() =~= seq![digit_char_of(n / 10)]);
        assert(decimal_value(seq![digit_char_of(n / 10)]) == n / 10) by {
            assert(seq![digit_char_of(n / 10)].drop_last() =~= Seq::<char>::empty());
            assert(digit_char_of(n / 10) as int == 48 + n / 10);
            assert(decimal_value(seq![digit_char_of(n / 10)]) == decimal_value(
                seq![digit_char_of(n / 10)].drop_last(),
            ) * 10 + (digit_char_of(n / 10) as int - 48));
        }
        assert(decimal_value(z) == decimal_value(z.drop_last()) * 10 + (z.last() as int - 48));
    }
}

spec fn digit_char_of(n: nat) -> char {
    crate::formatting::digit_char(n as int)
}

/// The tag of calendar fields whose month, day, hour, minute and second are
/// below 100 has the year's text, then exactly 11 characters: two digits each
/// for month and day, a '-', two digits each for hour, minute and second, every
/// pair reading back as its field.
pub proof fn lemma_datetime_tag_layout(f: (int, int, int, int, int, int))
    requires
        0 <= f.1 < 100,
        0 <= f.2 < 100,
        0 <= f.3 < 100,
        0 <= f.4 < 100,
        0 <= f.5 < 100,
    ensures
        ({
            let t = datetime_tag_text(f);
            let y = int_text(f.0).len() as int;
            &&& t.len() == y + 11
            &&& t.take(y) == int_text(f.0)
            &&& decimal_value(t.subrange(y, y + 2)) == f.1
            &&& decimal_value(t.subrange(y + 2, y + 4)) == f.2
            &&& t[y + 4] == '-'
            &&& decimal_value(t.subrange(y + 5, y + 7)) == f.3
            &&& decimal_value(t.subrange(y + 7, y + 9)) == f.4
            &&& decimal_value(t.subrange(y + 9, y + 11)) == f.5
            &&& all_decimal_digits(t.skip(y).take(4)) && all_decimal_digits(t.skip(y + 5))
        }),
{
    let t = datetime_tag_text(f);
    let y = int_text(f.0).len() as int;
    let z1 = zero_padded2(f.1 as nat);
    let z2 = zero_padded2(f.2 as nat);
    let z3 = zero_padded2(f.3 as nat);
    let z4 = zero_padded2(f.4 as nat);
    let z5 = zero_padded2(f.5 as nat);
    lemma_zero_padded2_two_digits(f.1 as nat);
    lemma_zero_padded2_two_digits(f.2 as nat);
    lemma_zero_padded2_two_digits(f.3 as nat);
    lemma_zero_padded2_two_digits(f.4 as nat);
    lemma_zero_padded2_two_digits(f.5 as nat);
    assert(t == int_text(f.0) + z1 + z2 + seq!['-'] + z3 + z4 + z5);
    assert(t.take(y) =~= int_text(f.0));
    assert(t.subrange(y, y + 2) =~= z1);
    assert(t.subrange(y + 2, y + 4) =~= z2);
    assert(t.subrange(y + 5, y + 7) =~= z3);
    assert(t.subrange(y + 7, y + 9) =~= z4);
    assert(t.subrange(y + 9, y + 11) =~= z5);
    assert(t.skip(y).take(4) =~= z1 + z2);
    assert(t.skip(y + 5) =~= z3 + z4 + z5);
    assert(t.len() == y + 11);
    assert(t[y + 4] == '-');
    assert(decimal_value(t.subrange(y, y + 2)) == f.1);
    assert(all_decimal_digits(z1 + z2)) by {
        assert forall|i: int| 0 <= i < (z1 + z2).len() implies '0' <= #[trigger] (z1 + z2)[i]
            && (z1 + z2)[i] <= '9' by {
            if i < 2 {
                assert((z1 + z2)[i] == z1[i]);
            } else {
                assert((z1 + z2)[i] == z2[i - 2]);
            }
        }
    }
    assert(all_decimal_digits(z3 + z4 + z5)) by {
        assert forall|i: int| 0 <= i < (z3 + z4 + z5).len() implies '0' <= #[trigger] (z3 + z4
            + z5)[i] && (z3 + z4 + z5)[i] <= '9' by {
            if i < 2 {
                assert((z3 + z4 + z5)[i] == z3[i]);
            } else if i < 4 {
                assert((z3 + z4 + z5)[i] == z4[i - 2]);
            } else {
                assert((z3 + z4 + z5)[i] == z5[i - 4]);
            }
        }
    }
}

/// The time of day of a timestamp: the hour is below 24, the minute and the
/// second below 60, and together they count the whole seconds since midnight
/// UTC (the milliseconds dropped, rounding towards earlier times).
pub proof fn lemma_time_of_day(millis: int)
    ensures
        ({
            let f = utc_fields_of_millis(millis);
            &&& 0 <= f.3 < 24
            &&& 0 <= f.4 < 60
            &&& 0 <= f.5 < 60
            &&& f.3 * 3600 + f.4 * 60 + f.5 == (millis / 1000) % 86400
        }),
{
}

} // verus!
