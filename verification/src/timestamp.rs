//! The timestamp that precedes each line.
//!
//! A timestamp is the text `[YYYY-MM-DD HH:MM:SS.mmm]` followed by one
//! space, with ANSI escape sequences around the date and time that show it
//! in green on a terminal.

use crate::clock::read_local_clock;
use crate::clock::ClockReading;
use crate::text::is_decimal_digit;
use crate::text::push_zero_padded_decimal;
use crate::text::push_zero_padded_signed;
use crate::text::zero_padded_decimal;
use crate::text::zero_padded_signed;
use vstd::prelude::*;
use vstd::string::*;
use vstd::utf8::encode_utf8;
use vstd::utf8::is_ascii_chars;

verus! {

/// The escape sequence that resets the terminal's colours: `ESC [ 0 m`.
pub open spec fn ansi_reset() -> Seq<char> {
    seq!['\u{1b}', '[', '0', 'm']
}

/// The escape sequence that selects green text: `ESC [ 3 2 m`.
pub open spec fn ansi_green() -> Seq<char> {
    seq!['\u{1b}', '[', '3', '2', 'm']
}

/// The date of `r` as `YYYY-MM-DD`. The year is zero-padded to four
/// characters, month and day to two. A year outside 0 to 9999 takes the
/// characters it needs.
pub open spec fn date_text(r: ClockReading) -> Seq<char> {
    zero_padded_signed(r.year as int, 4) + seq!['-'] + zero_padded_decimal(r.month as nat, 2)
        + seq!['-'] + zero_padded_decimal(r.day as nat, 2)
}

/// The time of day of `r` as `HH:MM:SS.mmm`. Hour, minute and second are
/// zero-padded to two characters, the milliseconds to three. The fields of
/// a wall-clock reading fit these widths.
pub open spec fn time_text(r: ClockReading) -> Seq<char> {
    zero_padded_decimal(r.hour as nat, 2) + seq![':'] + zero_padded_decimal(r.minute as nat, 2)
        + seq![':'] + zero_padded_decimal(r.second as nat, 2) + seq!['.'] + zero_padded_decimal(
        r.millisecond as nat,
        3,
    )
}

/// Date and time of `r` as `YYYY-MM-DD HH:MM:SS.mmm`.
pub open spec fn timestamp_body(r: ClockReading) -> Seq<char> {
    date_text(r) + seq![' '] + time_text(r)
}

/// The whole timestamp for `r`: reset, an opening bracket, green, the date
/// and time, reset, a closing bracket and a space.
pub open spec fn timestamp_text(r: ClockReading) -> Seq<char> {
    ansi_reset() + seq!['['] + ansi_green() + timestamp_body(r) + ansi_reset() + seq![']', ' ']
}

/// Whether `body` has the fixed shape `dddd-dd-dd dd:dd:dd.ddd`, where each
/// `d` is a decimal digit: twenty-three characters, with the separators at
/// their places and digits everywhere else.
pub open spec fn is_timestamp_shape(body: Seq<char>) -> bool {
    &&& body.len() == 23
    &&& body[4] == '-'
    &&& body[7] == '-'
    &&& body[10] == ' '
    &&& body[13] == ':'
    &&& body[16] == ':'
    &&& body[19] == '.'
    &&& forall|i: int|
        0 <= i < 23 && i != 4 && i != 7 && i != 10 && i != 13 && i != 16 && i != 19
            ==> is_decimal_digit(#[trigger] body[i])
}

/// Whether every field of `r` can be written in the width that the
/// timestamp gives it: a year from 0 to 9999, milliseconds below 1000, and
/// all other fields below 100.
pub open spec fn fits_timestamp_widths(r: ClockReading) -> bool {
    &&& 0 <= r.year <= 9999
    &&& r.month <= 99
    &&& r.day <= 99
    &&& r.hour <= 99
    &&& r.minute <= 99
    &&& r.second <= 99
    &&& r.millisecond <= 999
}

/// The text of a signed number padded to four characters is four
/// characters of digits exactly when the number lies between 0 and 9999.
/// It is never shorter than four characters.
proof fn lemma_year_shape(year: int)
    ensures
        zero_padded_signed(year, 4).len() >= 4,
        0 <= year <= 9999 <==> {
            &&& zero_padded_signed(year, 4).len() == 4
            &&& is_decimal_digit(zero_padded_signed(year, 4)[0])
        },
        0 <= year <= 9999 ==> forall|i: int|
            0 <= i < 4 ==> is_decimal_digit(#[trigger] zero_padded_signed(year, 4)[i]),
{
    if year < 0 {
        crate::text::lemma_zero_padded_decimal_shape((-year) as nat, 3);
    } else {
        crate::text::lemma_zero_padded_decimal_shape(year as nat, 4);
        crate::text::lemma_decimal_text_shape(year as nat);
    }
}

/// A field of two or three characters has its width exactly when its
/// number has no more digits than that, and is never shorter.
proof fn lemma_field_shape(n: nat, width: nat)
    requires
        width == 2 || width == 3,
    ensures
        zero_padded_decimal(n, width).len() >= width,
        zero_padded_decimal(n, width).len() == width <==> (if width == 2 {
            n <= 99
        } else {
            n <= 999
        }),
        forall|i: int|
            0 <= i < zero_padded_decimal(n, width).len() ==> is_decimal_digit(
                #[trigger] zero_padded_decimal(n, width)[i],
            ),
{
    crate::text::lemma_zero_padded_decimal_shape(n, width);
    crate::text::lemma_decimal_text_shape(n);
}

/// The date and time of a timestamp have the fixed shape
/// `dddd-dd-dd dd:dd:dd.ddd` exactly for the clock readings whose fields
/// fit their widths. Single-digit values are zero-padded, so they fit.
pub proof fn lemma_timestamp_shape(r: ClockReading)
    ensures
        is_timestamp_shape(timestamp_body(r)) <==> fits_timestamp_widths(r),
{
    let year = zero_padded_signed(r.year as int, 4);
    let month = zero_padded_decimal(r.month as nat, 2);
    let day = zero_padded_decimal(r.day as nat, 2);
    let hour = zero_padded_decimal(r.hour as nat, 2);
    let minute = zero_padded_decimal(r.minute as nat, 2);
    let second = zero_padded_decimal(r.second as nat, 2);
    let millisecond = zero_padded_decimal(r.millisecond as nat, 3);
    let body = timestamp_body(r);
    lemma_year_shape(r.year as int);
    lemma_field_shape(r.month as nat, 2);
    lemma_field_shape(r.day as nat, 2);
    lemma_field_shape(r.hour as nat, 2);
    lemma_field_shape(r.minute as nat, 2);
    lemma_field_shape(r.second as nat, 2);
    lemma_field_shape(r.millisecond as nat, 3);
    assert(body.len() == year.len() + month.len() + day.len() + hour.len() + minute.len()
        + second.len() + millisecond.len() + 6);
    assert(body[0] == year[0]);
    if fits_timestamp_widths(r) {
        assert forall|i: int|
            0 <= i < 23 && i != 4 && i != 7 && i != 10 && i != 13 && i != 16 && i != 19
            implies is_decimal_digit(#[trigger] body[i]) by {
            if i < 4 {
                assert(body[i] == year[i]);
            } else if i < 7 {
                assert(body[i] == month[i - 5]);
            } else if i < 10 {
                assert(body[i] == day[i - 8]);
            } else if i < 13 {
                assert(body[i] == hour[i - 11]);
            } else if i < 16 {
                assert(body[i] == minute[i - 14]);
            } else if i < 19 {
                assert(body[i] == second[i - 17]);
            } else {
                assert(body[i] == millisecond[i - 20]);
            }
        }
    }
}

/// The timestamp of a wall-clock reading has the fixed shape at every
/// instant of the years 0 to 9999: at midnight, in the last millisecond of a
/// day, and with single-digit fields, which are zero-padded. The whole
/// timestamp then has thirty-nine characters.
pub proof fn lemma_wall_clock_timestamp_shape(r: ClockReading)
    requires
        r.is_wall_clock(),
        0 <= r.year <= 9999,
    ensures
        is_timestamp_shape(timestamp_body(r)),
        timestamp_text(r).len() == 39,
{
    lemma_timestamp_shape(r);
}

/// Two texts of ASCII characters, one behind the other, are ASCII text.
proof fn lemma_ascii_append(a: Seq<char>, b: Seq<char>)
    requires
        is_ascii_chars(a),
        is_ascii_chars(b),
    ensures
        is_ascii_chars(a + b),
{
    vstd::utf8::is_ascii_chars_concat(a + b, a, b);
}

/// A zero-padded field is ASCII text.
proof fn lemma_field_is_ascii(n: nat, width: nat)
    ensures
        is_ascii_chars(zero_padded_decimal(n, width)),
{
    crate::text::lemma_zero_padded_decimal_shape(n, width);
}

/// A date is ASCII text.
proof fn lemma_date_is_ascii(r: ClockReading)
    ensures
        is_ascii_chars(date_text(r)),
{
    let year = zero_padded_signed(r.year as int, 4);
    let month = zero_padded_decimal(r.month as nat, 2);
    let day = zero_padded_decimal(r.day as nat, 2);
    if r.year < 0 {
        lemma_field_is_ascii((-r.year) as nat, 3);
        lemma_ascii_append(seq!['-'], zero_padded_decimal((-r.year) as nat, 3));
    } else {
        lemma_field_is_ascii(r.year as nat, 4);
    }
    lemma_field_is_ascii(r.month as nat, 2);
    lemma_field_is_ascii(r.day as nat, 2);
    lemma_ascii_append(year, seq!['-']);
    lemma_ascii_append(year + seq!['-'], month);
    lemma_ascii_append(year + seq!['-'] + month, seq!['-']);
    lemma_ascii_append(year + seq!['-'] + month + seq!['-'], day);
}

/// A time of day is ASCII text.
proof fn lemma_time_is_ascii(r: ClockReading)
    ensures
        is_ascii_chars(time_text(r)),
{
    let hour = zero_padded_decimal(r.hour as nat, 2);
    let minute = zero_padded_decimal(r.minute as nat, 2);
    let second = zero_padded_decimal(r.second as nat, 2);
    let millisecond = zero_padded_decimal(r.millisecond as nat, 3);
    lemma_field_is_ascii(r.hour as nat, 2);
    lemma_field_is_ascii(r.minute as nat, 2);
    lemma_field_is_ascii(r.second as nat, 2);
    lemma_field_is_ascii(r.millisecond as nat, 3);
    lemma_ascii_append(hour, seq![':']);
    lemma_ascii_append(hour + seq![':'], minute);
    lemma_ascii_append(hour + seq![':'] + minute, seq![':']);
    lemma_ascii_append(hour + seq![':'] + minute + seq![':'], second);
    lemma_ascii_append(hour + seq![':'] + minute + seq![':'] + second, seq!['.']);
    lemma_ascii_append(hour + seq![':'] + minute + seq![':'] + second + seq!['.'], millisecond);
}

/// A timestamp is ASCII text, so its UTF-8 encoding has one byte for each
/// of its characters: the character's own code.
pub proof fn lemma_timestamp_is_ascii(r: ClockReading)
    ensures
        is_ascii_chars(timestamp_text(r)),
        encode_utf8(timestamp_text(r)).len() == timestamp_text(r).len(),
        forall|i: int|
            0 <= i < timestamp_text(r).len() ==> #[trigger] encode_utf8(timestamp_text(r))[i]
                == timestamp_text(r)[i] as u8,
{
    let body = timestamp_body(r);
    let opening = ansi_reset() + seq!['['] + ansi_green();
    lemma_date_is_ascii(r);
    lemma_time_is_ascii(r);
    lemma_ascii_append(date_text(r), seq![' ']);
    lemma_ascii_append(date_text(r) + seq![' '], time_text(r));
    lemma_ascii_append(ansi_reset(), seq!['[']);
    lemma_ascii_append(ansi_reset() + seq!['['], ansi_green());
    lemma_ascii_append(opening, body);
    lemma_ascii_append(opening + body, ansi_reset());
    lemma_ascii_append(opening + body + ansi_reset(), seq![']', ' ']);
    vstd::utf8::is_ascii_chars_encode_utf8(timestamp_text(r));
}

/// Appends the date of `r` to `out`.
fn push_date(out: &mut String, r: &ClockReading)
    ensures
        final(out)@ == old(out)@ + date_text(*r),
{
    proof {
        reveal_strlit("-");
    }
    let ghost start = out@;
    push_zero_padded_signed(out, r.year, 4);
    out.append("-");
    push_zero_padded_decimal(out, r.month as u64, 2);
    out.append("-");
    push_zero_padded_decimal(out, r.day as u64, 2);
    assert(out@ =~= start + date_text(*r));
}

/// Appends the time of day of `r` to `out`.
fn push_time(out: &mut String, r: &ClockReading)
    ensures
        final(out)@ == old(out)@ + time_text(*r),
{
    proof {
        reveal_strlit(":");
        reveal_strlit(".");
    }
    let ghost start = out@;
    push_zero_padded_decimal(out, r.hour as u64, 2);
    out.append(":");
    push_zero_padded_decimal(out, r.minute as u64, 2);
    out.append(":");
    push_zero_padded_decimal(out, r.second as u64, 2);
    out.append(".");
    push_zero_padded_decimal(out, r.millisecond as u64, 3);
    assert(out@ =~= start + time_text(*r));
}

/// Formats the timestamp for the clock reading `r`.
pub fn format_timestamp(r: &ClockReading) -> (stamp: String)
    ensures
        stamp@ == timestamp_text(*r),
{
    proof {
        reveal_strlit("\x1b[0m[\x1b[32m");
        reveal_strlit(" ");
        reveal_strlit("\x1b[0m] ");
    }
    let mut stamp = String::new();
    stamp.append("\x1b[0m[\x1b[32m");
    assert(stamp@ =~= ansi_reset() + seq!['['] + ansi_green());
    push_date(&mut stamp, r);
    stamp.append(" ");
    push_time(&mut stamp, r);
    assert(stamp@ =~= ansi_reset() + seq!['['] + ansi_green() + timestamp_body(*r));
    stamp.append("\x1b[0m] ");
    assert(stamp@ =~= timestamp_text(*r));
    stamp
}

/// Formats the timestamp for the present moment on the local wall clock.
/// Every call samples the clock anew. In the years 0 to 9999 the timestamp
/// has the fixed shape and thirty-nine characters, whatever the instant.
pub fn generate_timestamp() -> (stamp: String)
    ensures
        exists|now: ClockReading|
            now.is_wall_clock() && stamp@ == #[trigger] timestamp_text(now) && (0 <= now.year
                <= 9999 ==> is_timestamp_shape(timestamp_body(now)) && stamp@.len() == 39),
{
    let now = read_local_clock();
    let stamp = format_timestamp(&now);
    proof {
        if 0 <= now.year <= 9999 {
            lemma_wall_clock_timestamp_shape(now);
        }
    }
    stamp
}

} // verus!
