//! The identifier of a new note: the moment of its creation written out
//! digit by digit, so that different moments give different identifiers
//! and every identifier is a safe file name.

use crate::clock::ClockReading;
use vstd::prelude::*;
use vstd::string::StringExecFns;

verus! {

/// The character of the decimal digit `digit`.
pub open spec fn digit_char(digit: nat) -> char {
    if digit == 0 {
        '0'
    } else if digit == 1 {
        '1'
    } else if digit == 2 {
        '2'
    } else if digit == 3 {
        '3'
    } else if digit == 4 {
        '4'
    } else if digit == 5 {
        '5'
    } else if digit == 6 {
        '6'
    } else if digit == 7 {
        '7'
    } else if digit == 8 {
        '8'
    } else {
        '9'
    }
}

/// The last `width` decimal digits of `value`, most significant first,
/// with leading zeros.
pub open spec fn digits(value: nat, width: nat) -> Seq<char>
    decreases width,
{
    if width == 0 {
        Seq::empty()
    } else {
        digits(value / 10, (width - 1) as nat).push(digit_char(value % 10))
    }
}

/// Ten to the power `width`.
pub open spec fn pow10(width: nat) -> nat
    decreases width,
{
    if width == 0 {
        1
    } else {
        10 * pow10((width - 1) as nat)
    }
}

/// The second that an identifier shows: within a leap second, the one
/// after the second of the reading.
pub open spec fn shown_second(reading: ClockReading) -> nat {
    (reading.second + reading.nanosecond / 1_000_000_000) as nat
}

/// The nanoseconds that an identifier shows: those since the shown second.
pub open spec fn shown_nanosecond(reading: ClockReading) -> nat {
    (reading.nanosecond % 1_000_000_000) as nat
}

/// The number of digits with which a year of the magnitude `magnitude`
/// is written behind its sign: as many as it has, and four at least.
pub open spec fn year_width(magnitude: nat) -> nat {
    if magnitude < 10_000 {
        4
    } else if magnitude < 100_000 {
        5
    } else if magnitude < 1_000_000 {
        6
    } else if magnitude < 10_000_000 {
        7
    } else if magnitude < 100_000_000 {
        8
    } else if magnitude < 1_000_000_000 {
        9
    } else {
        10
    }
}

/// The year as an identifier shows it, which is how the calendar writes
/// it: four digits from year 0 to year 9999; else a sign and the digits
/// of the year, filled up to four with zeros.
pub open spec fn year_text(year: int) -> Seq<char> {
    if 0 <= year <= 9999 {
        digits(year as nat, 4)
    } else if year < 0 {
        seq!['-'] + digits((-year) as nat, year_width((-year) as nat))
    } else {
        seq!['+'] + digits(year as nat, year_width(year as nat))
    }
}

/// What follows the year in an identifier: month, day, hour, minute,
/// second and nanoseconds, each behind a hyphen.
pub open spec fn time_text(reading: ClockReading) -> Seq<char> {
    seq!['-'] + digits(reading.month as nat, 2) + seq!['-'] + digits(reading.day as nat, 2) + seq![
        '-',
    ] + digits(reading.hour as nat, 2) + seq!['-'] + digits(reading.minute as nat, 2) + seq!['-']
        + digits(shown_second(reading), 2) + seq!['-'] + digits(shown_nanosecond(reading), 9)
}

/// The identifier of a note created at `reading`.
pub open spec fn note_id_text(reading: ClockReading) -> Seq<char> {
    "Noteworthy-"@ + year_text(reading.year as int) + time_text(reading)
}

/// What of a reading an identifier shows. Two readings with one tick give
/// one identifier.
pub open spec fn tick(reading: ClockReading) -> (int, int, int, int, int, int, int) {
    (
        reading.year as int,
        reading.month as int,
        reading.day as int,
        reading.hour as int,
        reading.minute as int,
        shown_second(reading) as int,
        shown_nanosecond(reading) as int,
    )
}

/// Digit strings have the width asked for.
pub proof fn lemma_digits_len(value: nat, width: nat)
    ensures
        digits(value, width).len() == width,
    decreases width,
{
    if width > 0 {
        lemma_digits_len(value / 10, (width - 1) as nat);
    }
}

/// Two numbers that fit the width and are written alike are one number.
pub proof fn lemma_digits_injective(a: nat, b: nat, width: nat)
    requires
        a < pow10(width),
        b < pow10(width),
        digits(a, width) == digits(b, width),
    ensures
        a == b,
    decreases width,
{
    if width > 0 {
        let shorter = (width - 1) as nat;
        lemma_digits_len(a / 10, shorter);
        lemma_digits_len(b / 10, shorter);
        let left = digits(a / 10, shorter).push(digit_char(a % 10));
        let right = digits(b / 10, shorter).push(digit_char(b % 10));
        assert(left[shorter as int] == right[shorter as int]);
        assert(a % 10 == b % 10);
        assert(left.drop_last() =~= digits(a / 10, shorter));
        assert(right.drop_last() =~= digits(b / 10, shorter));
        lemma_digits_injective(a / 10, b / 10, shorter);
    }
}

/// Readings whose times of day are written alike agree in month, day,
/// hour, minute and in the second and nanoseconds shown.
proof fn lemma_time_text_injective(a: ClockReading, b: ClockReading)
    requires
        a.wf(),
        b.wf(),
        time_text(a) == time_text(b),
    ensures
        a.month == b.month,
        a.day == b.day,
        a.hour == b.hour,
        a.minute == b.minute,
        shown_second(a) == shown_second(b),
        shown_nanosecond(a) == shown_nanosecond(b),
{
    assert(pow10(2) == 100 && pow10(9) == 1_000_000_000) by {
        reveal_with_fuel(pow10, 10);
    }
    lemma_time_fields(a);
    lemma_time_fields(b);
    lemma_digits_injective(a.month as nat, b.month as nat, 2);
    lemma_digits_injective(a.day as nat, b.day as nat, 2);
    lemma_digits_injective(a.hour as nat, b.hour as nat, 2);
    lemma_digits_injective(a.minute as nat, b.minute as nat, 2);
    lemma_digits_injective(shown_second(a), shown_second(b), 2);
    lemma_digits_injective(shown_nanosecond(a), shown_nanosecond(b), 9);
}

/// Where each field stands in the text of a time of day.
proof fn lemma_time_fields(reading: ClockReading)
    ensures
        time_text(reading).len() == 25,
        time_text(reading).subrange(1, 3) == digits(reading.month as nat, 2),
        time_text(reading).subrange(4, 6) == digits(reading.day as nat, 2),
        time_text(reading).subrange(7, 9) == digits(reading.hour as nat, 2),
        time_text(reading).subrange(10, 12) == digits(reading.minute as nat, 2),
        time_text(reading).subrange(13, 15) == digits(shown_second(reading), 2),
        time_text(reading).subrange(16, 25) == digits(shown_nanosecond(reading), 9),
{
    lemma_digits_len(reading.month as nat, 2);
    lemma_digits_len(reading.day as nat, 2);
    lemma_digits_len(reading.hour as nat, 2);
    lemma_digits_len(reading.minute as nat, 2);
    lemma_digits_len(shown_second(reading), 2);
    lemma_digits_len(shown_nanosecond(reading), 9);
    let text = time_text(reading);
    assert(text.subrange(1, 3) =~= digits(reading.month as nat, 2));
    assert(text.subrange(4, 6) =~= digits(reading.day as nat, 2));
    assert(text.subrange(7, 9) =~= digits(reading.hour as nat, 2));
    assert(text.subrange(10, 12) =~= digits(reading.minute as nat, 2));
    assert(text.subrange(13, 15) =~= digits(shown_second(reading), 2));
    assert(text.subrange(16, 25) =~= digits(shown_nanosecond(reading), 9));
}

/// Years that are written alike are one year.
proof fn lemma_year_text_injective(a: int, b: int)
    requires
        i32::MIN <= a <= i32::MAX,
        i32::MIN <= b <= i32::MAX,
        year_text(a) == year_text(b),
    ensures
        a == b,
{
    assert(pow10(4) == 10_000 && pow10(5) == 100_000 && pow10(6) == 1_000_000 && pow10(7)
        == 10_000_000 && pow10(8) == 100_000_000 && pow10(9) == 1_000_000_000 && pow10(10)
        == 10_000_000_000) by {
        reveal_with_fuel(pow10, 11);
    }
    let magnitude_a = (if a < 0 { -a } else { a }) as nat;
    let magnitude_b = (if b < 0 { -b } else { b }) as nat;
    let width_a = year_width(magnitude_a);
    let width_b = year_width(magnitude_b);
    lemma_digits_len(magnitude_a, 4);
    lemma_digits_len(magnitude_b, 4);
    lemma_digits_len(magnitude_a, width_a);
    lemma_digits_len(magnitude_b, width_b);
    if 0 <= a <= 9999 {
        assert(year_text(a).len() == 4);
        assert(0 <= b <= 9999);
        lemma_digits_injective(magnitude_a, magnitude_b, 4);
    } else {
        assert(year_text(a).len() == 1 + width_a);
        assert(!(0 <= b <= 9999));
        assert(year_text(b).len() == 1 + width_b);
        assert(width_a == width_b);
        assert(year_text(a)[0] == (if a < 0 { '-' } else { '+' }));
        assert(year_text(b)[0] == (if b < 0 { '-' } else { '+' }));
        assert((a < 0) == (b < 0));
        assert(year_text(a).subrange(1, 1 + width_a as int) =~= digits(magnitude_a, width_a));
        assert(year_text(b).subrange(1, 1 + width_b as int) =~= digits(magnitude_b, width_b));
        assert(magnitude_a < pow10(width_a));
        assert(magnitude_b < pow10(width_b));
        lemma_digits_injective(magnitude_a, magnitude_b, width_a);
    }
}

/// Readings that differ in what an identifier shows get different
/// identifiers.
pub proof fn lemma_note_ids_distinct(a: ClockReading, b: ClockReading)
    requires
        a.wf(),
        b.wf(),
        tick(a) != tick(b),
    ensures
        note_id_text(a) != note_id_text(b),
{
    if note_id_text(a) == note_id_text(b) {
        let prefix = "Noteworthy-"@;
        let year_a = year_text(a.year as int);
        let year_b = year_text(b.year as int);
        let id_a = note_id_text(a);
        let id_b = note_id_text(b);
        lemma_time_fields(a);
        lemma_time_fields(b);
        assert(id_a.len() == prefix.len() + year_a.len() + 25);
        assert(id_b.len() == prefix.len() + year_b.len() + 25);
        assert(year_a.len() == year_b.len());
        let start = prefix.len() as int;
        let cut = start + year_a.len();
        assert(id_a.subrange(cut, cut + 25) =~= time_text(a));
        assert(id_b.subrange(cut, cut + 25) =~= time_text(b));
        assert(id_a.subrange(start, cut) =~= year_a);
        assert(id_b.subrange(start, cut) =~= year_b);
        lemma_time_text_injective(a, b);
        lemma_year_text_injective(a.year as int, b.year as int);
        assert(tick(a) == tick(b));
    }
}

/// Whether `c` is a character that an identifier can hold: a digit, a
/// letter of the Latin alphabet, a hyphen or a plus sign. No separator of
/// a path, no dot and no blank is among them.
pub open spec fn is_name_char(c: char) -> bool {
    let code = c as u32;
    ||| 48 <= code <= 57
    ||| 65 <= code <= 90
    ||| 97 <= code <= 122
    ||| c == '-'
    ||| c == '+'
}

/// Whether `text` holds no character but those of identifiers.
pub open spec fn all_name_chars(text: Seq<char>) -> bool {
    forall|i: int| 0 <= i < text.len() ==> is_name_char(#[trigger] text[i])
}

/// Digits are characters of identifiers.
proof fn lemma_digits_name_chars(value: nat, width: nat)
    ensures
        all_name_chars(digits(value, width)),
    decreases width,
{
    if width > 0 {
        lemma_digits_name_chars(value / 10, (width - 1) as nat);
        lemma_digits_len(value / 10, (width - 1) as nat);
        let text = digits(value, width);
        assert forall|i: int| 0 <= i < text.len() implies is_name_char(#[trigger] text[i]) by {
            if i < width - 1 {
                assert(text[i] == digits(value / 10, (width - 1) as nat)[i]);
            }
        }
    }
}

/// Two texts of such characters, one behind the other, are a text of
/// such characters.
proof fn lemma_name_chars_joined(first: Seq<char>, second: Seq<char>)
    requires
        all_name_chars(first),
        all_name_chars(second),
    ensures
        all_name_chars(first + second),
{
    assert forall|i: int| 0 <= i < (first + second).len() implies is_name_char(
        #[trigger] (first + second)[i],
    ) by {
        if i < first.len() {
            assert((first + second)[i] == first[i]);
        } else {
            assert((first + second)[i] == second[i - first.len()]);
        }
    }
}

/// A digit text behind a hyphen, behind a text of such characters, is a
/// text of such characters.
proof fn lemma_name_chars_field(before: Seq<char>, value: nat, width: nat)
    requires
        all_name_chars(before),
    ensures
        all_name_chars(before + seq!['-'] + digits(value, width)),
{
    lemma_name_chars_joined(before, seq!['-']);
    lemma_digits_name_chars(value, width);
    lemma_name_chars_joined(before + seq!['-'], digits(value, width));
}

/// An identifier is not empty and is safe as the name of a file: it holds
/// digits, letters, hyphens and plus signs, and so no separator of a
/// path, no dot and no blank.
pub proof fn lemma_note_id_safe(reading: ClockReading)
    ensures
        note_id_text(reading).len() > 0,
        all_name_chars(note_id_text(reading)),
        forall|i: int|
            0 <= i < note_id_text(reading).len() ==> {
                let c = #[trigger] note_id_text(reading)[i];
                c != '/' && c != '\\' && c != '.' && c != ' ' && c != '\t' && c != '\n'
                    && c != '\r'
            },
{
    reveal_strlit("Noteworthy-");
    let prefix = "Noteworthy-"@;
    assert(all_name_chars(prefix)) by {
        assert(prefix.len() == 11);
        assert forall|i: int| 0 <= i < prefix.len() implies is_name_char(#[trigger] prefix[i]) by {
            assert(prefix[0] == 'N' && prefix[1] == 'o' && prefix[2] == 't' && prefix[3] == 'e'
                && prefix[4] == 'w' && prefix[5] == 'o' && prefix[6] == 'r' && prefix[7] == 't'
                && prefix[8] == 'h' && prefix[9] == 'y' && prefix[10] == '-');
        }
    }
    let year = reading.year as int;
    let magnitude = (if year < 0 { -year } else { year }) as nat;
    assert(all_name_chars(year_text(year))) by {
        lemma_digits_name_chars(magnitude, 4);
        lemma_digits_name_chars(magnitude, year_width(magnitude));
        if year < 0 {
            lemma_name_chars_joined(seq!['-'], digits(magnitude, year_width(magnitude)));
        } else if year > 9999 {
            lemma_name_chars_joined(seq!['+'], digits(magnitude, year_width(magnitude)));
        }
    }
    lemma_name_chars_joined(prefix, year_text(year));
    let dated = prefix + year_text(year);
    let month = dated + seq!['-'] + digits(reading.month as nat, 2);
    let day = month + seq!['-'] + digits(reading.day as nat, 2);
    let hour = day + seq!['-'] + digits(reading.hour as nat, 2);
    let minute = hour + seq!['-'] + digits(reading.minute as nat, 2);
    let second = minute + seq!['-'] + digits(shown_second(reading), 2);
    let whole = second + seq!['-'] + digits(shown_nanosecond(reading), 9);
    lemma_name_chars_field(dated, reading.month as nat, 2);
    lemma_name_chars_field(month, reading.day as nat, 2);
    lemma_name_chars_field(day, reading.hour as nat, 2);
    lemma_name_chars_field(hour, reading.minute as nat, 2);
    lemma_name_chars_field(minute, shown_second(reading), 2);
    lemma_name_chars_field(second, shown_nanosecond(reading), 9);
    assert(whole =~= note_id_text(reading));
    assert forall|i: int| 0 <= i < note_id_text(reading).len() implies {
        let c = #[trigger] note_id_text(reading)[i];
        c != '/' && c != '\\' && c != '.' && c != ' ' && c != '\t' && c != '\n' && c != '\r'
    } by {
        assert(is_name_char(note_id_text(reading)[i]));
    }
}

/// What of a reading shows when nanoseconds are cut down to microseconds.
pub open spec fn microsecond_tick(reading: ClockReading) -> (int, int, int, int, int, int, int) {
    (
        reading.year as int,
        reading.month as int,
        reading.day as int,
        reading.hour as int,
        reading.minute as int,
        shown_second(reading) as int,
        shown_nanosecond(reading) as int / 1000,
    )
}

/// Readings that differ by a microsecond or more in what they show get
/// different identifiers.
pub proof fn lemma_note_ids_distinct_by_microsecond(a: ClockReading, b: ClockReading)
    requires
        a.wf(),
        b.wf(),
        microsecond_tick(a) != microsecond_tick(b),
    ensures
        note_id_text(a) != note_id_text(b),
{
    lemma_note_ids_distinct(a, b);
}

/// Whether `first` and `second` agree before the place `at` and `first`
/// is the smaller there: it ends there and `second` does not, or it has
/// the character of the smaller code.
pub open spec fn differ_at(first: Seq<char>, second: Seq<char>, at: int) -> bool {
    &&& 0 <= at <= first.len()
    &&& at <= second.len()
    &&& first.subrange(0, at) == second.subrange(0, at)
    &&& if at == first.len() {
        at < second.len()
    } else {
        at < second.len() && (first[at] as u32) < (second[at] as u32)
    }
}

/// Whether `first` comes before `second` in the order of texts: the
/// order in which texts, and so the names of files, are sorted.
pub open spec fn text_before(first: Seq<char>, second: Seq<char>) -> bool {
    exists|at: int| differ_at(first, second, at)
}

/// The numbers `values` written with the widths `widths`, most
/// significant first, with a hyphen between one and the next.
pub open spec fn written(values: Seq<nat>, widths: Seq<nat>) -> Seq<char>
    decreases values.len(),
{
    if values.len() == 0 {
        Seq::empty()
    } else if values.len() == 1 {
        digits(values[0], widths[0])
    } else {
        digits(values[0], widths[0]) + seq!['-'] + written(
            values.drop_first(),
            widths.drop_first(),
        )
    }
}

/// Whether `first` comes before `second` when they are compared number by
/// number from the front: at the first place where they differ, `first`
/// has the smaller number.
pub open spec fn values_before(first: Seq<nat>, second: Seq<nat>) -> bool
    decreases first.len(),
{
    if first.len() == 0 || second.len() == 0 {
        false
    } else if first[0] != second[0] {
        first[0] < second[0]
    } else {
        values_before(first.drop_first(), second.drop_first())
    }
}

/// What an identifier shows of a reading, from the year down to the
/// nanoseconds.
pub open spec fn tick_values(reading: ClockReading) -> Seq<nat> {
    seq![
        reading.year as nat,
        reading.month as nat,
        reading.day as nat,
        reading.hour as nat,
        reading.minute as nat,
        shown_second(reading),
        shown_nanosecond(reading),
    ]
}

/// The widths with which an identifier shows the parts of a reading.
pub open spec fn tick_widths() -> Seq<nat> {
    seq![4, 2, 2, 2, 2, 2, 9]
}

/// Whether what `first` shows is a moment before what `second` shows, in
/// one calendar: the earlier year, or in one year the earlier month, and
/// so on down to the nanoseconds.
pub open spec fn shows_earlier(first: ClockReading, second: ClockReading) -> bool {
    let a = tick(first);
    let b = tick(second);
    ||| a.0 < b.0
    ||| a.0 == b.0 && a.1 < b.1
    ||| a.0 == b.0 && a.1 == b.1 && a.2 < b.2
    ||| a.0 == b.0 && a.1 == b.1 && a.2 == b.2 && a.3 < b.3
    ||| a.0 == b.0 && a.1 == b.1 && a.2 == b.2 && a.3 == b.3 && a.4 < b.4
    ||| a.0 == b.0 && a.1 == b.1 && a.2 == b.2 && a.3 == b.3 && a.4 == b.4 && a.5 < b.5
    ||| a.0 == b.0 && a.1 == b.1 && a.2 == b.2 && a.3 == b.3 && a.4 == b.4 && a.5 == b.5 && a.6
        < b.6
}

/// A reading that shows the earlier moment shows the smaller numbers,
/// compared from the year down.
proof fn lemma_earlier_values(first: ClockReading, second: ClockReading)
    requires
        0 <= first.year,
        0 <= second.year,
        shows_earlier(first, second),
    ensures
        values_before(tick_values(first), tick_values(second)),
{
    let a0 = tick_values(first);
    let b0 = tick_values(second);
    let a1 = a0.drop_first();
    let b1 = b0.drop_first();
    let a2 = a1.drop_first();
    let b2 = b1.drop_first();
    let a3 = a2.drop_first();
    let b3 = b2.drop_first();
    let a4 = a3.drop_first();
    let b4 = b3.drop_first();
    let a5 = a4.drop_first();
    let b5 = b4.drop_first();
    let a6 = a5.drop_first();
    let b6 = b5.drop_first();
    assert(a6[0] == shown_nanosecond(first) && b6[0] == shown_nanosecond(second));
    assert(a5[0] == shown_second(first) && b5[0] == shown_second(second));
    assert(a4[0] == first.minute && b4[0] == second.minute);
    assert(a3[0] == first.hour && b3[0] == second.hour);
    assert(a2[0] == first.day && b2[0] == second.day);
    assert(a1[0] == first.month && b1[0] == second.month);
    assert(a0[0] == first.year && b0[0] == second.year);
    assert(a6.len() == 1 && a6.drop_first().len() == 0);
    assert(!values_before(a6.drop_first(), b6.drop_first()));
    lemma_values_before_step(a6, b6);
    lemma_values_before_step(a5, b5);
    lemma_values_before_step(a4, b4);
    lemma_values_before_step(a3, b3);
    lemma_values_before_step(a2, b2);
    lemma_values_before_step(a1, b1);
    lemma_values_before_step(a0, b0);
}

/// Numbers are compared by their first, and where these are equal by the
/// rest.
proof fn lemma_values_before_step(first: Seq<nat>, second: Seq<nat>)
    requires
        first.len() > 0,
        second.len() > 0,
    ensures
        values_before(first, second) == if first[0] != second[0] {
            first[0] < second[0]
        } else {
            values_before(first.drop_first(), second.drop_first())
        },
{
}

/// The code of a digit's character grows with the digit.
proof fn lemma_digit_char_code(digit: nat)
    requires
        digit < 10,
    ensures
        digit_char(digit) as u32 == 48 + digit,
{
}

/// Of two numbers that fit the width, the smaller is written with the
/// smaller digit at the first place where the two are written
/// differently. The place is handed back.
proof fn lemma_digits_before(a: nat, b: nat, width: nat) -> (at: int)
    requires
        a < b < pow10(width),
    ensures
        0 <= at < width,
        digits(a, width).subrange(0, at) == digits(b, width).subrange(0, at),
        (digits(a, width)[at] as u32) < (digits(b, width)[at] as u32),
    decreases width,
{
    let shorter = (width - 1) as nat;
    lemma_digits_len(a / 10, shorter);
    lemma_digits_len(b / 10, shorter);
    lemma_digits_len(a, width);
    lemma_digits_len(b, width);
    if a / 10 < b / 10 {
        let at = lemma_digits_before(a / 10, b / 10, shorter);
        assert(digits(a, width).subrange(0, at) =~= digits(a / 10, shorter).subrange(0, at));
        assert(digits(b, width).subrange(0, at) =~= digits(b / 10, shorter).subrange(0, at));
        assert(digits(a, width)[at] == digits(a / 10, shorter)[at]);
        assert(digits(b, width)[at] == digits(b / 10, shorter)[at]);
        at
    } else {
        assert(a / 10 == b / 10);
        assert(a % 10 < b % 10);
        lemma_digit_char_code(a % 10);
        lemma_digit_char_code(b % 10);
        let at = shorter as int;
        assert(digits(a, width).subrange(0, at) =~= digits(a / 10, shorter));
        assert(digits(b, width).subrange(0, at) =~= digits(b / 10, shorter));
        at
    }
}

/// Two texts of one length that first differ at `at`, each between the
/// same head and a tail of its own, first differ that far behind the head.
proof fn lemma_differ_in_context(
    head: Seq<char>,
    first: Seq<char>,
    second: Seq<char>,
    first_tail: Seq<char>,
    second_tail: Seq<char>,
    at: int,
)
    requires
        0 <= at < first.len(),
        first.len() == second.len(),
        first.subrange(0, at) == second.subrange(0, at),
        (first[at] as u32) < (second[at] as u32),
    ensures
        differ_at(head + first + first_tail, head + second + second_tail, head.len() + at),
{
    let whole_first = head + first + first_tail;
    let whole_second = head + second + second_tail;
    let place = head.len() + at;
    assert(whole_first.subrange(0, place) =~= head + first.subrange(0, at));
    assert(whole_second.subrange(0, place) =~= head + second.subrange(0, at));
    assert(whole_first[place] == first[at]);
    assert(whole_second[place] == second[at]);
}

/// Numbers that fit their widths and come before others, number by
/// number, are written as a text that comes before the text of the
/// others, whatever stands before both.
proof fn lemma_written_before(head: Seq<char>, first: Seq<nat>, second: Seq<nat>, widths: Seq<nat>)
    requires
        first.len() == widths.len(),
        second.len() == widths.len(),
        forall|i: int| 0 <= i < widths.len() ==> first[i] < pow10(#[trigger] widths[i]),
        forall|i: int| 0 <= i < widths.len() ==> second[i] < pow10(#[trigger] widths[i]),
        values_before(first, second),
    ensures
        text_before(head + written(first, widths), head + written(second, widths)),
    decreases first.len(),
{
    let first_digits = digits(first[0], widths[0]);
    let second_digits = digits(second[0], widths[0]);
    lemma_digits_len(first[0], widths[0]);
    lemma_digits_len(second[0], widths[0]);
    let first_tail = if first.len() == 1 {
        Seq::<char>::empty()
    } else {
        seq!['-'] + written(first.drop_first(), widths.drop_first())
    };
    let second_tail = if second.len() == 1 {
        Seq::<char>::empty()
    } else {
        seq!['-'] + written(second.drop_first(), widths.drop_first())
    };
    assert(head + written(first, widths) =~= head + first_digits + first_tail);
    assert(head + written(second, widths) =~= head + second_digits + second_tail);
    if first[0] != second[0] {
        let at = lemma_digits_before(first[0], second[0], widths[0]);
        lemma_differ_in_context(head, first_digits, second_digits, first_tail, second_tail, at);
    } else {
        let longer = head + first_digits + seq!['-'];
        assert forall|i: int| 0 <= i < widths.drop_first().len() implies first.drop_first()[i]
            < pow10(#[trigger] widths.drop_first()[i]) by {
            assert(first.drop_first()[i] == first[i + 1]);
            assert(widths.drop_first()[i] == widths[i + 1]);
        }
        assert forall|i: int| 0 <= i < widths.drop_first().len() implies second.drop_first()[i]
            < pow10(#[trigger] widths.drop_first()[i]) by {
            assert(second.drop_first()[i] == second[i + 1]);
            assert(widths.drop_first()[i] == widths[i + 1]);
        }
        lemma_written_before(
            longer,
            first.drop_first(),
            second.drop_first(),
            widths.drop_first(),
        );
        assert(longer + written(first.drop_first(), widths.drop_first()) =~= head + written(
            first,
            widths,
        ));
        assert(longer + written(second.drop_first(), widths.drop_first()) =~= head + written(
            second,
            widths,
        ));
    }
}

/// From year 0 to year 9999 an identifier is its prefix and what it
/// shows of the reading, written part by part.
proof fn lemma_note_id_written(reading: ClockReading)
    requires
        0 <= reading.year <= 9999,
    ensures
        note_id_text(reading) == "Noteworthy-"@ + written(tick_values(reading), tick_widths()),
{
    let values = tick_values(reading);
    let widths = tick_widths();
    let v1 = values.drop_first();
    let w1 = widths.drop_first();
    let v2 = v1.drop_first();
    let w2 = w1.drop_first();
    let v3 = v2.drop_first();
    let w3 = w2.drop_first();
    let v4 = v3.drop_first();
    let w4 = w3.drop_first();
    let v5 = v4.drop_first();
    let w5 = w4.drop_first();
    let v6 = v5.drop_first();
    let w6 = w5.drop_first();
    assert(written(v6, w6) == digits(shown_nanosecond(reading), 9));
    assert(written(v5, w5) == digits(shown_second(reading), 2) + seq!['-'] + written(v6, w6));
    assert(written(v4, w4) == digits(reading.minute as nat, 2) + seq!['-'] + written(v5, w5));
    assert(written(v3, w3) == digits(reading.hour as nat, 2) + seq!['-'] + written(v4, w4));
    assert(written(v2, w2) == digits(reading.day as nat, 2) + seq!['-'] + written(v3, w3));
    assert(written(v1, w1) == digits(reading.month as nat, 2) + seq!['-'] + written(v2, w2));
    assert(written(values, widths) == digits(reading.year as nat, 4) + seq!['-'] + written(v1, w1));
    assert(note_id_text(reading) =~= "Noteworthy-"@ + written(values, widths));
}

/// From year 0 to year 9999 identifiers sort as their moments do: a
/// reading that shows the earlier moment gets the identifier that comes
/// first in the order of texts.
pub proof fn lemma_note_ids_ordered(first: ClockReading, second: ClockReading)
    requires
        first.wf(),
        second.wf(),
        0 <= first.year <= 9999,
        0 <= second.year <= 9999,
        shows_earlier(first, second),
    ensures
        text_before(note_id_text(first), note_id_text(second)),
{
    assert(pow10(2) == 100 && pow10(4) == 10_000 && pow10(9) == 1_000_000_000) by {
        reveal_with_fuel(pow10, 10);
    }
    lemma_note_id_written(first);
    lemma_note_id_written(second);
    lemma_earlier_values(first, second);
    lemma_written_before(
        "Noteworthy-"@,
        tick_values(first),
        tick_values(second),
        tick_widths(),
    );
}

/// The text of the decimal digit `digit`.
fn digit_text(digit: u64) -> (text: &'static str)
    requires
        digit < 10,
    ensures
        text@ == seq![digit_char(digit as nat)],
{
    proof {
        reveal_strlit("0");
        reveal_strlit("1");
        reveal_strlit("2");
        reveal_strlit("3");
        reveal_strlit("4");
        reveal_strlit("5");
        reveal_strlit("6");
        reveal_strlit("7");
        reveal_strlit("8");
        reveal_strlit("9");
    }
    let text = if digit == 0 {
        "0"
    } else if digit == 1 {
        "1"
    } else if digit == 2 {
        "2"
    } else if digit == 3 {
        "3"
    } else if digit == 4 {
        "4"
    } else if digit == 5 {
        "5"
    } else if digit == 6 {
        "6"
    } else if digit == 7 {
        "7"
    } else if digit == 8 {
        "8"
    } else {
        "9"
    };
    assert(text@ =~= seq![digit_char(digit as nat)]);
    text
}

/// Appends the last `width` decimal digits of `value` to `text`.
fn push_digits(text: &mut String, value: u64, width: u32)
    ensures
        final(text)@ == old(text)@ + digits(value as nat, width as nat),
    decreases width,
{
    if width > 0 {
        push_digits(text, value / 10, width - 1);
        text.append(digit_text(value % 10));
        assert(text@ =~= old(text)@ + digits(value as nat, width as nat));
    } else {
        assert(text@ =~= old(text)@ + digits(value as nat, width as nat));
    }
}

/// The number of digits with which a year of the magnitude `magnitude`
/// is written behind its sign.
fn year_digits(magnitude: u64) -> (width: u32)
    ensures
        width == year_width(magnitude as nat),
{
    if magnitude < 10_000 {
        4
    } else if magnitude < 100_000 {
        5
    } else if magnitude < 1_000_000 {
        6
    } else if magnitude < 10_000_000 {
        7
    } else if magnitude < 100_000_000 {
        8
    } else if magnitude < 1_000_000_000 {
        9
    } else {
        10
    }
}

/// The identifier of a note created at `reading`.
pub fn note_id(reading: &ClockReading) -> (id: String)
    ensures
        id@ == note_id_text(*reading),
{
    let mut id = String::from_str("Noteworthy-");
    let year: i64 = reading.year as i64;
    if 0 <= year && year <= 9999 {
        push_digits(&mut id, year as u64, 4);
    } else {
        let magnitude: u64 = if year < 0 {
            id.append("-");
            (-year) as u64
        } else {
            id.append("+");
            year as u64
        };
        push_digits(&mut id, magnitude, year_digits(magnitude));
    }
    proof {
        reveal_strlit("-");
        reveal_strlit("+");
        assert(id@ =~= "Noteworthy-"@ + year_text(reading.year as int));
    }
    let second: u64 = reading.second as u64 + (reading.nanosecond / 1_000_000_000) as u64;
    let nanosecond: u64 = (reading.nanosecond % 1_000_000_000) as u64;
    id.append("-");
    push_digits(&mut id, reading.month as u64, 2);
    id.append("-");
    push_digits(&mut id, reading.day as u64, 2);
    id.append("-");
    push_digits(&mut id, reading.hour as u64, 2);
    id.append("-");
    push_digits(&mut id, reading.minute as u64, 2);
    id.append("-");
    push_digits(&mut id, second, 2);
    id.append("-");
    push_digits(&mut id, nanosecond, 9);
    assert(id@ =~= note_id_text(*reading));
    id
}

} // verus!
