//! Time: the clock embedded in remote identifiers, wall-clock text of the
//! form `YYYY-MM-DD HH:MM:SS.mmm`, and the readings of the machine's clock
//! and time zone.

use vstd::prelude::*;
use vstd::utf8::*;
use chrono::{Datelike, TimeZone, Timelike};
use crate::text::{ascii_text, is_ascii_bytes, text_from_ascii};

verus! {

/// Milliseconds between the Unix epoch and the epoch of the identifiers,
/// 2010-11-04T01:42:54.657Z.
pub const IDENTIFIER_EPOCH: i64 = 1288834974657;

/// The time at which an identifier was issued, in milliseconds since the
/// Unix epoch: the bits above the lowest 22 count the milliseconds since the
/// epoch of the identifiers.
pub open spec fn identifier_millis(identifier: int) -> int {
    identifier / 4194304 + 1288834974657
}

/// Decodes the time embedded in an identifier.
pub fn decode_time(identifier: i64) -> (millis: i64)
    ensures
        millis == identifier_millis(identifier as int),
{
    assert(identifier >> 22 == identifier / 4194304 && -2199023255552 <= identifier >> 22
        < 2199023255552) by (bit_vector);
    (identifier >> 22) + IDENTIFIER_EPOCH
}

/// The whole seconds of a time in milliseconds.
pub open spec fn seconds_of(millis: int) -> int {
    millis / 1000
}

/// The whole seconds of a time in milliseconds.
pub fn whole_seconds(millis: i64) -> (seconds: i64)
    ensures
        seconds == seconds_of(millis as int),
{
    if millis >= 0 {
        millis / 1000
    } else {
        let before: i128 = 0 - millis as i128;
        let up: i128 = (before + 999) / 1000;
        (0 - up) as i64
    }
}

/// A wall-clock time with millisecond precision.
#[derive(Clone, Copy, Debug, PartialEq, Eq, Structural)]
pub struct WallClock {
    pub year: u16,
    pub month: u8,
    pub day: u8,
    pub hour: u8,
    pub minute: u8,
    pub second: u8,
    pub millis: u16,
}

impl WallClock {
    /// Every field is inside the range that the text form can hold and a
    /// clock can show.
    pub open spec fn wf(self) -> bool {
        &&& self.year <= 9999
        &&& 1 <= self.month <= 12
        &&& 1 <= self.day <= 31
        &&& self.hour <= 23
        &&& self.minute <= 59
        &&& self.second <= 59
        &&& self.millis <= 999
    }
}

/// The fields of a wall clock as plain numbers, where each is in range.
pub open spec fn wall_clock_of(
    year: int,
    month: int,
    day: int,
    hour: int,
    minute: int,
    second: int,
    millis: int,
) -> Option<WallClock> {
    if 0 <= year <= 9999 && 1 <= month <= 12 && 1 <= day <= 31 && 0 <= hour <= 23 && 0 <= minute
        <= 59 && 0 <= second <= 59 && 0 <= millis <= 999 {
        Some(
            WallClock {
                year: year as u16,
                month: month as u8,
                day: day as u8,
                hour: hour as u8,
                minute: minute as u8,
                second: second as u8,
                millis: millis as u16,
            },
        )
    } else {
        None
    }
}

/// The last `width` decimal digits of `n`, with leading zeros.
pub open spec fn padded_digits(n: nat, width: nat) -> Seq<u8>
    decreases width,
{
    if width == 0 {
        Seq::empty()
    } else {
        padded_digits(n / 10, (width - 1) as nat).push((48 + n % 10) as u8)
    }
}

/// The text `YYYY-MM-DD HH:MM:SS.mmm` of a wall clock.
pub open spec fn wall_clock_text(w: WallClock) -> Seq<u8> {
    padded_digits(w.year as nat, 4) + seq![0x2du8] + padded_digits(w.month as nat, 2)
        + seq![0x2du8] + padded_digits(w.day as nat, 2) + seq![0x20u8] + padded_digits(
        w.hour as nat,
        2,
    ) + seq![0x3au8] + padded_digits(w.minute as nat, 2) + seq![0x3au8] + padded_digits(
        w.second as nat,
        2,
    ) + seq![0x2eu8] + padded_digits(w.millis as nat, 3)
}

/// The number that decimal digits spell.
pub open spec fn digits_value(digits: Seq<u8>) -> nat
    decreases digits.len(),
{
    if digits.len() == 0 {
        0
    } else {
        digits_value(digits.drop_last()) * 10 + (digits.last() - 48) as nat
    }
}

/// True when every byte from `from` up to `to` is a decimal digit.
pub open spec fn digits_at(text: Seq<u8>, from: int, to: int) -> bool {
    forall|i: int| from <= i < to ==> 48 <= #[trigger] text[i] <= 57
}

/// True when `text` has the shape `dddd-dd-dd dd:dd:dd.ddd`.
pub open spec fn wall_clock_shaped(text: Seq<u8>) -> bool {
    &&& text.len() == 23
    &&& digits_at(text, 0, 4)
    &&& text[4] == 0x2d
    &&& digits_at(text, 5, 7)
    &&& text[7] == 0x2d
    &&& digits_at(text, 8, 10)
    &&& text[10] == 0x20
    &&& digits_at(text, 11, 13)
    &&& text[13] == 0x3a
    &&& digits_at(text, 14, 16)
    &&& text[16] == 0x3a
    &&& digits_at(text, 17, 19)
    &&& text[19] == 0x2e
    &&& digits_at(text, 20, 23)
}

/// The wall clock that `text` spells: `None` where it has not the shape
/// `YYYY-MM-DD HH:MM:SS.mmm` or a field is out of range.
pub open spec fn parsed_wall_clock(text: Seq<u8>) -> Option<WallClock> {
    if wall_clock_shaped(text) {
        wall_clock_of(
            digits_value(text.subrange(0, 4)) as int,
            digits_value(text.subrange(5, 7)) as int,
            digits_value(text.subrange(8, 10)) as int,
            digits_value(text.subrange(11, 13)) as int,
            digits_value(text.subrange(14, 16)) as int,
            digits_value(text.subrange(17, 19)) as int,
            digits_value(text.subrange(20, 23)) as int,
        )
    } else {
        None
    }
}

/// Padded digits are `width` ASCII digits.
pub proof fn lemma_padded_digits_shape(n: nat, width: nat)
    ensures
        padded_digits(n, width).len() == width,
        digits_at(padded_digits(n, width), 0, width as int),
        is_ascii_bytes(padded_digits(n, width)),
    decreases width,
{
    if width > 0 {
        lemma_padded_digits_shape(n / 10, (width - 1) as nat);
    }
}

/// Padded digits spell the number they were made from, where it fits.
pub proof fn lemma_padded_digits_value(n: nat, width: nat)
    ensures
        width == 2 && n < 100 ==> digits_value(padded_digits(n, width)) == n,
        width == 3 && n < 1000 ==> digits_value(padded_digits(n, width)) == n,
        width == 4 && n < 10000 ==> digits_value(padded_digits(n, width)) == n,
{
    lemma_padded_digits_unfold(n, width);
    assert(pow10(0) == 1);
    assert(pow10(1) == 10);
    assert(pow10(2) == 100);
    assert(pow10(3) == 1000);
    assert(pow10(4) == 10000);
    if width == 2 && n < 100 {
        assert(n % 100 == n);
    }
    if width == 3 && n < 1000 {
        assert(n % 1000 == n);
    }
    if width == 4 && n < 10000 {
        assert(n % 10000 == n);
    }
}

/// Padded digits spell the number they were made from, modulo ten to the
/// power of their width.
proof fn lemma_padded_digits_unfold(n: nat, width: nat)
    ensures
        digits_value(padded_digits(n, width)) == n % pow10(width),
    decreases width,
{
    if width > 0 {
        let rest = padded_digits(n / 10, (width - 1) as nat);
        lemma_padded_digits_unfold(n / 10, (width - 1) as nat);
        assert(padded_digits(n, width).drop_last() =~= rest);
        assert(padded_digits(n, width).last() == (48 + n % 10) as u8);
        let p = pow10((width - 1) as nat);
        assert(pow10(width) == 10 * p);
        assert(p > 0) by {
            lemma_pow10_positive((width - 1) as nat);
        }
        vstd::arithmetic::div_mod::lemma_breakdown(n as int, 10, p as int);
        assert(n % (10 * p) == 10 * ((n / 10) % p) + n % 10);
    }
}

/// Ten to the power of `e`.
pub open spec fn pow10(e: nat) -> nat
    decreases e,
{
    if e == 0 {
        1
    } else {
        10 * pow10((e - 1) as nat)
    }
}

/// A power of ten is positive.
proof fn lemma_pow10_positive(e: nat)
    ensures
        pow10(e) > 0,
    decreases e,
{
    if e > 0 {
        lemma_pow10_positive((e - 1) as nat);
    }
}

/// The text of a wall clock is 23 ASCII bytes.
pub proof fn lemma_wall_clock_text_shape(w: WallClock)
    ensures
        wall_clock_text(w).len() == 23,
        is_ascii_bytes(wall_clock_text(w)),
        wall_clock_shaped(wall_clock_text(w)),
{
    lemma_padded_digits_shape(w.year as nat, 4);
    lemma_padded_digits_shape(w.month as nat, 2);
    lemma_padded_digits_shape(w.day as nat, 2);
    lemma_padded_digits_shape(w.hour as nat, 2);
    lemma_padded_digits_shape(w.minute as nat, 2);
    lemma_padded_digits_shape(w.second as nat, 2);
    lemma_padded_digits_shape(w.millis as nat, 3);
    let t = wall_clock_text(w);
    assert(t.len() == 23);
    assert forall|i: int| 0 <= i < 23 implies #[trigger] t[i] < 128 by {
        lemma_wall_clock_text_at(w, i);
    }
    assert forall|i: int| 0 <= i < 4 implies 48 <= #[trigger] t[i] <= 57 by {
        lemma_wall_clock_text_at(w, i);
    }
    assert forall|i: int| 5 <= i < 7 implies 48 <= #[trigger] t[i] <= 57 by {
        lemma_wall_clock_text_at(w, i);
    }
    assert forall|i: int| 8 <= i < 10 implies 48 <= #[trigger] t[i] <= 57 by {
        lemma_wall_clock_text_at(w, i);
    }
    assert forall|i: int| 11 <= i < 13 implies 48 <= #[trigger] t[i] <= 57 by {
        lemma_wall_clock_text_at(w, i);
    }
    assert forall|i: int| 14 <= i < 16 implies 48 <= #[trigger] t[i] <= 57 by {
        lemma_wall_clock_text_at(w, i);
    }
    assert forall|i: int| 17 <= i < 19 implies 48 <= #[trigger] t[i] <= 57 by {
        lemma_wall_clock_text_at(w, i);
    }
    assert forall|i: int| 20 <= i < 23 implies 48 <= #[trigger] t[i] <= 57 by {
        lemma_wall_clock_text_at(w, i);
    }
    lemma_wall_clock_text_at(w, 4);
    lemma_wall_clock_text_at(w, 7);
    lemma_wall_clock_text_at(w, 10);
    lemma_wall_clock_text_at(w, 13);
    lemma_wall_clock_text_at(w, 16);
    lemma_wall_clock_text_at(w, 19);
}

/// Where each byte of the text of a wall clock comes from.
proof fn lemma_wall_clock_text_at(w: WallClock, i: int)
    requires
        0 <= i < 23,
    ensures
        wall_clock_text(w).len() == 23,
        0 <= i < 4 ==> wall_clock_text(w)[i] == padded_digits(w.year as nat, 4)[i],
        5 <= i < 7 ==> wall_clock_text(w)[i] == padded_digits(w.month as nat, 2)[i - 5],
        8 <= i < 10 ==> wall_clock_text(w)[i] == padded_digits(w.day as nat, 2)[i - 8],
        11 <= i < 13 ==> wall_clock_text(w)[i] == padded_digits(w.hour as nat, 2)[i - 11],
        14 <= i < 16 ==> wall_clock_text(w)[i] == padded_digits(w.minute as nat, 2)[i - 14],
        17 <= i < 19 ==> wall_clock_text(w)[i] == padded_digits(w.second as nat, 2)[i - 17],
        20 <= i < 23 ==> wall_clock_text(w)[i] == padded_digits(w.millis as nat, 3)[i - 20],
        i == 4 || i == 7 ==> wall_clock_text(w)[i] == 0x2d,
        i == 10 ==> wall_clock_text(w)[i] == 0x20,
        i == 13 || i == 16 ==> wall_clock_text(w)[i] == 0x3a,
        i == 19 ==> wall_clock_text(w)[i] == 0x2e,
        48 <= wall_clock_text(w)[i] <= 57 || i == 4 || i == 7 || i == 10 || i == 13 || i == 16 || i
            == 19,
{
    lemma_padded_digits_shape(w.year as nat, 4);
    lemma_padded_digits_shape(w.month as nat, 2);
    lemma_padded_digits_shape(w.day as nat, 2);
    lemma_padded_digits_shape(w.hour as nat, 2);
    lemma_padded_digits_shape(w.minute as nat, 2);
    lemma_padded_digits_shape(w.second as nat, 2);
    lemma_padded_digits_shape(w.millis as nat, 3);
}

/// Reading the text of a well-formed wall clock gives the wall clock back.
pub proof fn lemma_parse_format(w: WallClock)
    requires
        w.wf(),
    ensures
        parsed_wall_clock(wall_clock_text(w)) == Some(w),
{
    let t = wall_clock_text(w);
    lemma_wall_clock_text_shape(w);
    lemma_padded_digits_shape(w.year as nat, 4);
    lemma_padded_digits_shape(w.month as nat, 2);
    lemma_padded_digits_shape(w.day as nat, 2);
    lemma_padded_digits_shape(w.hour as nat, 2);
    lemma_padded_digits_shape(w.minute as nat, 2);
    lemma_padded_digits_shape(w.second as nat, 2);
    lemma_padded_digits_shape(w.millis as nat, 3);
    assert(t.subrange(0, 4) =~= padded_digits(w.year as nat, 4));
    assert(t.subrange(5, 7) =~= padded_digits(w.month as nat, 2));
    assert(t.subrange(8, 10) =~= padded_digits(w.day as nat, 2));
    assert(t.subrange(11, 13) =~= padded_digits(w.hour as nat, 2));
    assert(t.subrange(14, 16) =~= padded_digits(w.minute as nat, 2));
    assert(t.subrange(17, 19) =~= padded_digits(w.second as nat, 2));
    assert(t.subrange(20, 23) =~= padded_digits(w.millis as nat, 3));
    lemma_padded_digits_value(w.year as nat, 4);
    lemma_padded_digits_value(w.month as nat, 2);
    lemma_padded_digits_value(w.day as nat, 2);
    lemma_padded_digits_value(w.hour as nat, 2);
    lemma_padded_digits_value(w.minute as nat, 2);
    lemma_padded_digits_value(w.second as nat, 2);
    lemma_padded_digits_value(w.millis as nat, 3);
}

/// Appends the last `width` decimal digits of `n`, with leading zeros.
pub fn append_padded(out: &mut Vec<u8>, n: u32, width: u8)
    ensures
        final(out)@ == old(out)@ + padded_digits(n as nat, width as nat),
    decreases width,
{
    if width > 0 {
        append_padded(out, n / 10, width - 1);
        let digit: u8 = (n % 10) as u8;
        out.push(48 + digit);
    }
    assert(out@ =~= old(out)@ + padded_digits(n as nat, width as nat));
}

/// The text `YYYY-MM-DD HH:MM:SS.mmm` of a wall clock, as bytes.
pub fn format_wall_clock_bytes(w: &WallClock) -> (text: Vec<u8>)
    ensures
        text@ == wall_clock_text(*w),
        text@.len() == 23,
        is_ascii_bytes(text@),
{
    let mut text: Vec<u8> = Vec::new();
    append_padded(&mut text, w.year as u32, 4);
    text.push(0x2d);
    append_padded(&mut text, w.month as u32, 2);
    text.push(0x2d);
    append_padded(&mut text, w.day as u32, 2);
    text.push(0x20);
    append_padded(&mut text, w.hour as u32, 2);
    text.push(0x3a);
    append_padded(&mut text, w.minute as u32, 2);
    text.push(0x3a);
    append_padded(&mut text, w.second as u32, 2);
    text.push(0x2e);
    append_padded(&mut text, w.millis as u32, 3);
    proof {
        assert(text@ =~= wall_clock_text(*w));
        lemma_wall_clock_text_shape(*w);
    }
    text
}

/// The text `YYYY-MM-DD HH:MM:SS.mmm` of a wall clock.
pub fn format_wall_clock(w: &WallClock) -> (text: String)
    ensures
        encode_utf8(text@) == wall_clock_text(*w),
        text@ == ascii_text(wall_clock_text(*w)),
        text@.len() == 23,
{
    text_from_ascii(format_wall_clock_bytes(w))
}

/// Reads the decimal number between `from` and `to`, if only digits stand
/// there.
fn read_digits(text: &[u8], from: usize, to: usize) -> (value: Option<u32>)
    requires
        from <= to <= text@.len(),
        to - from <= 4,
    ensures
        value is Some <==> digits_at(text@, from as int, to as int),
        value matches Some(v) ==> v == digits_value(text@.subrange(from as int, to as int)) && v
            < 10000,
{
    let mut value: u32 = 0;
    let mut i: usize = from;
    assert(text@.subrange(from as int, from as int) =~= Seq::<u8>::empty());
    while i < to
        invariant
            from <= i <= to <= text@.len(),
            to - from <= 4,
            digits_at(text@, from as int, i as int),
            value == digits_value(text@.subrange(from as int, i as int)),
            value < pow10((i - from) as nat),
        decreases to - i,
    {
        let byte = text[i];
        if byte < 48 || byte > 57 {
            return None;
        }
        proof {
            let next = text@.subrange(from as int, i + 1);
            assert(next.drop_last() =~= text@.subrange(from as int, i as int));
            assert(next.last() == byte);
            assert(pow10((i + 1 - from) as nat) == 10 * pow10((i - from) as nat));
            reveal_with_fuel(pow10, 5);
            assert(pow10((i - from) as nat) <= 1000);
        }
        value = value * 10 + (byte - 48) as u32;
        i += 1;
    }
    proof {
        reveal_with_fuel(pow10, 5);
        assert(pow10((to - from) as nat) <= 10000);
    }
    Some(value)
}

/// The wall clock with the given fields, where each is in range.
pub fn wall_clock_from(
    year: i32,
    month: u32,
    day: u32,
    hour: u32,
    minute: u32,
    second: u32,
    millis: u32,
) -> (clock: Option<WallClock>)
    ensures
        clock == wall_clock_of(
            year as int,
            month as int,
            day as int,
            hour as int,
            minute as int,
            second as int,
            millis as int,
        ),
        clock matches Some(w) ==> w.wf(),
{
    if 0 <= year && year <= 9999 && 1 <= month && month <= 12 && 1 <= day && day <= 31 && hour
        <= 23 && minute <= 59 && second <= 59 && millis <= 999 {
        Some(
            WallClock {
                year: year as u16,
                month: month as u8,
                day: day as u8,
                hour: hour as u8,
                minute: minute as u8,
                second: second as u8,
                millis: millis as u16,
            },
        )
    } else {
        None
    }
}

/// Reads a wall clock from bytes of the form `YYYY-MM-DD HH:MM:SS.mmm`.
pub fn parse_wall_clock_bytes(text: &[u8]) -> (clock: Option<WallClock>)
    ensures
        clock == parsed_wall_clock(text@),
        clock matches Some(w) ==> w.wf(),
{
    if text.len() != 23 {
        return None;
    }
    if text[4] != 0x2d || text[7] != 0x2d || text[10] != 0x20 || text[13] != 0x3a || text[16]
        != 0x3a || text[19] != 0x2e {
        return None;
    }
    let year = read_digits(text, 0, 4);
    let month = read_digits(text, 5, 7);
    let day = read_digits(text, 8, 10);
    let hour = read_digits(text, 11, 13);
    let minute = read_digits(text, 14, 16);
    let second = read_digits(text, 17, 19);
    let millis = read_digits(text, 20, 23);
    if year.is_none() || month.is_none() || day.is_none() || hour.is_none() || minute.is_none()
        || second.is_none() || millis.is_none() {
        return None;
    }
    wall_clock_from(
        year.unwrap() as i32,
        month.unwrap(),
        day.unwrap(),
        hour.unwrap(),
        minute.unwrap(),
        second.unwrap(),
        millis.unwrap(),
    )
}

/// Reads a wall clock from text of the form `YYYY-MM-DD HH:MM:SS.mmm`.
pub fn parse_wall_clock(text: &str) -> (clock: Option<WallClock>)
    ensures
        clock == parsed_wall_clock(encode_utf8(text@)),
        clock matches Some(w) ==> w.wf(),
{
    parse_wall_clock_bytes(text.as_bytes())
}

/// `chrono::Local::now` and `DateTime::timestamp_millis`: the reading of
/// the machine's clock, in milliseconds since the Unix epoch. Nothing is
/// known of it.
#[verifier::external_body]
fn clock_reading() -> (millis: i64) {
    chrono::Local::now().timestamp_millis()
}

/// The date and time of day that UTC shows at `millis` milliseconds since
/// the Unix epoch: year, month, day, hour, minute, second and millisecond.
/// `None` for an instant outside the years that the calendar counts.
pub uninterp spec fn civil_fields(millis: i64) -> Option<(i32, u32, u32, u32, u32, u32, u32)>;

/// The milliseconds since the Unix epoch at which UTC shows the given date
/// and time of day. `None` where no day of the calendar or no time of day
/// has these fields.
pub uninterp spec fn civil_instant(
    year: i32,
    month: u32,
    day: u32,
    hour: u32,
    minute: u32,
    second: u32,
    millis: u32,
) -> Option<i64>;

/// `DateTime::from_timestamp_millis`, and the accessors of `Datelike` and
/// `Timelike` on the `DateTime<Utc>` it gives: the fields that UTC shows at
/// an instant.
#[verifier::external_body]
fn utc_fields_at(millis: i64) -> (fields: Option<(i32, u32, u32, u32, u32, u32, u32)>)
    ensures
        fields == civil_fields(millis),
{
    let at = chrono::DateTime::from_timestamp_millis(millis)?;
    Some(
        (
            at.year(),
            at.month(),
            at.day(),
            at.hour(),
            at.minute(),
            at.second(),
            at.timestamp_subsec_millis(),
        ),
    )
}

/// `NaiveDate::from_ymd_opt`, `NaiveDate::and_hms_milli_opt`,
/// `NaiveDateTime::and_utc` and `DateTime::timestamp_millis`: the instant at
/// which UTC shows the given fields.
#[verifier::external_body]
fn utc_instant_of(
    year: i32,
    month: u32,
    day: u32,
    hour: u32,
    minute: u32,
    second: u32,
    millis: u32,
) -> (instant: Option<i64>)
    ensures
        instant == civil_instant(year, month, day, hour, minute, second, millis),
{
    let date = chrono::NaiveDate::from_ymd_opt(year, month, day)?;
    let naive = date.and_hms_milli_opt(hour, minute, second, millis)?;
    Some(naive.and_utc().timestamp_millis())
}

/// `TimeZone::timestamp_millis_opt` of `chrono::Local`, `DateTime::offset`
/// and `FixedOffset::local_minus_utc`: the seconds by which the machine's
/// time zone is ahead of UTC at an instant. There is an offset exactly for
/// the instants that `DateTime::from_timestamp_millis` accepts, and every
/// offset is less than a day. Which one it is depends on the machine.
#[verifier::external_body]
fn local_offset_at(millis: i64) -> (offset: Option<i32>)
    ensures
        offset is Some <==> civil_fields(millis) is Some,
        offset matches Some(seconds) ==> is_zone_offset(seconds as int),
{
    Some(chrono::Local.timestamp_millis_opt(millis).single()?.offset().local_minus_utc())
}

/// `DateTime::from_timestamp_millis`, `DateTime::naive_utc`,
/// `TimeZone::offset_from_local_datetime` of `chrono::Local` and
/// `FixedOffset::local_minus_utc`: the seconds by which the machine's time
/// zone is ahead of UTC when it shows what UTC shows at `shown`, where it
/// shows that exactly once. Every offset is less than a day; whether there
/// is one, and which, depends on the machine.
#[verifier::external_body]
fn local_offset_for(shown: i64) -> (offset: Option<i32>)
    ensures
        offset matches Some(seconds) ==> is_zone_offset(seconds as int),
{
    let naive = chrono::DateTime::from_timestamp_millis(shown)?.naive_utc();
    Some(chrono::Local.offset_from_local_datetime(&naive).single()?.local_minus_utc())
}

/// True of the seconds by which a time zone can be ahead of UTC: less than a
/// day either way.
pub open spec fn is_zone_offset(seconds: int) -> bool {
    -86400 < seconds < 86400
}

/// The wall clock that a time zone `offset` seconds ahead of UTC shows at an
/// instant: what UTC shows `offset` seconds later. `None` where that is
/// outside the years 0 to 9999.
pub open spec fn wall_clock_at(millis: int, offset: int) -> Option<WallClock> {
    let shifted = millis + 1000 * offset;
    if i64::MIN <= shifted <= i64::MAX {
        match civil_fields(shifted as i64) {
            Some(fields) => wall_clock_of(
                fields.0 as int,
                fields.1 as int,
                fields.2 as int,
                fields.3 as int,
                fields.4 as int,
                fields.5 as int,
                fields.6 as int,
            ),
            None => None,
        }
    } else {
        None
    }
}

/// The instant at which UTC shows `clock`.
pub open spec fn shown_in_utc(clock: WallClock) -> Option<i64> {
    civil_instant(
        clock.year as i32,
        clock.month as u32,
        clock.day as u32,
        clock.hour as u32,
        clock.minute as u32,
        clock.second as u32,
        clock.millis as u32,
    )
}

/// The instant `offset` seconds before `shown`, where an `i64` holds it.
pub open spec fn shifted_back(shown: int, offset: int) -> Option<i64> {
    if i64::MIN <= shown - 1000 * offset <= i64::MAX {
        Some((shown - 1000 * offset) as i64)
    } else {
        None
    }
}

/// The instant at which a time zone `offset` seconds ahead of UTC shows
/// `clock`: `offset` seconds before UTC shows it. `None` where no day of the
/// calendar has the fields of `clock`.
pub open spec fn instant_at(clock: WallClock, offset: int) -> Option<i64> {
    match shown_in_utc(clock) {
        Some(shown) => shifted_back(shown as int, offset),
        None => None,
    }
}

/// True where `clock` is what some time zone shows at an instant: for an
/// instant that the calendar counts, the wall clock at an offset of less than
/// a day, and else none.
pub open spec fn shown_locally_at(millis: i64, clock: Option<WallClock>) -> bool {
    if civil_fields(millis) is Some {
        exists|offset: i32|
            is_zone_offset(offset as int) && clock == #[trigger] wall_clock_at(
                millis as int,
                offset as int,
            )
    } else {
        clock is None
    }
}

/// True where some time zone shows `clock` at `instant`.
pub open spec fn shows_locally(clock: WallClock, instant: i64) -> bool {
    exists|offset: i32|
        is_zone_offset(offset as int) && #[trigger] instant_at(clock, offset as int) == Some(
            instant,
        )
}

/// The wall clock that a time zone `offset` seconds ahead of UTC shows at an
/// instant.
pub fn wall_clock_at_offset(millis: i64, offset: i32) -> (clock: Option<WallClock>)
    ensures
        clock == wall_clock_at(millis as int, offset as int),
        clock matches Some(w) ==> w.wf(),
{
    let shifted: i128 = millis as i128 + 1000 * (offset as i128);
    if shifted < i64::MIN as i128 || shifted > i64::MAX as i128 {
        return None;
    }
    match utc_fields_at(shifted as i64) {
        Some((year, month, day, hour, minute, second, fraction)) => wall_clock_from(
            year,
            month,
            day,
            hour,
            minute,
            second,
            fraction,
        ),
        None => None,
    }
}

/// The instant at which UTC shows `clock`.
pub fn utc_instant(clock: &WallClock) -> (instant: Option<i64>)
    ensures
        instant == shown_in_utc(*clock),
{
    utc_instant_of(
        clock.year as i32,
        clock.month as u32,
        clock.day as u32,
        clock.hour as u32,
        clock.minute as u32,
        clock.second as u32,
        clock.millis as u32,
    )
}

/// The instant `offset` seconds before `shown`.
pub fn shift_back(shown: i64, offset: i32) -> (instant: Option<i64>)
    ensures
        instant == shifted_back(shown as int, offset as int),
{
    let shifted: i128 = shown as i128 - 1000 * (offset as i128);
    if shifted < i64::MIN as i128 || shifted > i64::MAX as i128 {
        None
    } else {
        Some(shifted as i64)
    }
}

/// The instant at which a time zone `offset` seconds ahead of UTC shows
/// `clock`.
pub fn instant_at_offset(clock: &WallClock, offset: i32) -> (instant: Option<i64>)
    ensures
        instant == instant_at(*clock, offset as int),
{
    match utc_instant(clock) {
        Some(shown) => shift_back(shown, offset),
        None => None,
    }
}

/// Reads the machine's clock: milliseconds since the Unix epoch.
pub fn now_millis() -> (millis: i64) {
    clock_reading()
}

/// The wall clock that the machine's time zone shows at an instant: what
/// UTC shows as many seconds later as the zone is ahead of it at that
/// instant. `None` where the calendar does not count the instant, or the
/// wall clock is outside the years 0 to 9999.
pub fn local_wall_clock(millis: i64) -> (clock: Option<WallClock>)
    ensures
        shown_locally_at(millis, clock),
        clock matches Some(w) ==> w.wf(),
{
    match local_offset_at(millis) {
        Some(offset) => {
            let clock = wall_clock_at_offset(millis, offset);
            assert(is_zone_offset(offset as int) && clock == wall_clock_at(
                millis as int,
                offset as int,
            ));
            clock
        },
        None => None,
    }
}

/// The instant at which the machine's time zone shows `clock`: as many
/// seconds before UTC shows it as the zone is then ahead of UTC. `None`
/// where no day of the calendar has the fields of `clock`, or the zone never
/// shows it or shows it twice.
pub fn local_instant(clock: &WallClock) -> (instant: Option<i64>)
    ensures
        shown_in_utc(*clock) is None ==> instant is None,
        instant matches Some(at) ==> shows_locally(*clock, at),
{
    match utc_instant(clock) {
        Some(shown) => match local_offset_for(shown) {
            Some(offset) => {
                let instant = shift_back(shown, offset);
                assert(is_zone_offset(offset as int) && instant == instant_at(
                    *clock,
                    offset as int,
                ));
                instant
            },
            None => None,
        },
        None => None,
    }
}

} // verus!
