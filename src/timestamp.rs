//! Creation timestamps in the fixed `YYYY-MM-DD HH:MM:SS` form.
use chrono::{Datelike, Timelike};
use vstd::prelude::*;

verus! {

/// A local date and time of day, field by field.
#[derive(Clone, Copy, Debug, PartialEq, Eq)]
pub struct Timestamp {
    pub year: i32,
    pub month: u32,
    pub day: u32,
    pub hour: u32,
    pub minute: u32,
    pub second: u32,
}

impl Timestamp {
    /// Each field lies in the range of a clock reading.
    pub open spec fn fields_in_range(self) -> bool {
        1 <= self.month <= 12 && 1 <= self.day <= 31 && self.hour <= 23 && self.minute <= 59
            && self.second <= 59
    }

    /// The year has a four-digit form.
    pub open spec fn year_has_four_digits(self) -> bool {
        0 <= self.year <= 9999
    }

    /// Renders the timestamp as `YYYY-MM-DD HH:MM:SS`, each field zero-padded.
    pub fn to_text(&self) -> (r: String)
        requires
            self.fields_in_range(),
            self.year_has_four_digits(),
        ensures
            r@ == timestamp_text(*self),
            is_timestamp_text(r@),
    {
        let mut out = four_digit_text(self.year as u32);
        out.append("-");
        out.append(two_digit_text(self.month).as_str());
        out.append("-");
        out.append(two_digit_text(self.day).as_str());
        out.append(" ");
        out.append(two_digit_text(self.hour).as_str());
        out.append(":");
        out.append(two_digit_text(self.minute).as_str());
        out.append(":");
        out.append(two_digit_text(self.second).as_str());
        proof {
            reveal_strlit("-");
            reveal_strlit(" ");
            reveal_strlit(":");
            assert(out@ =~= timestamp_text(*self));
            lemma_timestamp_text_shape(*self);
        }
        out
    }
}

fn two_digit_text(v: u32) -> (r: String)
    requires
        v < 100,
    ensures
        r@ == two_digits(v as int),
{
    let mut out = String::new();
    append_digit(&mut out, v / 10);
    append_digit(&mut out, v % 10);
    assert(out@ =~= two_digits(v as int));
    out
}

fn four_digit_text(v: u32) -> (r: String)
    requires
        v < 10000,
    ensures
        r@ == four_digits(v as int),
{
    let mut out = String::new();
    append_digit(&mut out, v / 1000);
    append_digit(&mut out, v / 100 % 10);
    append_digit(&mut out, v / 10 % 10);
    append_digit(&mut out, v % 10);
    assert(out@ =~= four_digits(v as int));
    out
}

/// The decimal digit character for `d`, which is below ten.
pub open spec fn digit_char(d: int) -> char {
    if d == 0 {
        '0'
    } else if d == 1 {
        '1'
    } else if d == 2 {
        '2'
    } else if d == 3 {
        '3'
    } else if d == 4 {
        '4'
    } else if d == 5 {
        '5'
    } else if d == 6 {
        '6'
    } else if d == 7 {
        '7'
    } else if d == 8 {
        '8'
    } else {
        '9'
    }
}

pub open spec fn is_digit(c: char) -> bool {
    '0' <= c <= '9'
}

/// `v` as two zero-padded decimal digits.
pub open spec fn two_digits(v: int) -> Seq<char> {
    seq![digit_char(v / 10), digit_char(v % 10)]
}

/// `v` as four zero-padded decimal digits.
pub open spec fn four_digits(v: int) -> Seq<char> {
    seq![digit_char(v / 1000), digit_char(v / 100 % 10), digit_char(v / 10 % 10), digit_char(v % 10)]
}

/// The text `YYYY-MM-DD HH:MM:SS` of a timestamp.
pub open spec fn timestamp_text(t: Timestamp) -> Seq<char> {
    four_digits(t.year as int) + seq!['-'] + two_digits(t.month as int) + seq!['-'] + two_digits(
        t.day as int,
    ) + seq![' '] + two_digits(t.hour as int) + seq![':'] + two_digits(t.minute as int) + seq![
        ':',
    ] + two_digits(t.second as int)
}

/// Whether `s` has the fixed shape `DDDD-DD-DD DD:DD:DD`, each `D` a decimal digit.
pub open spec fn is_timestamp_text(s: Seq<char>) -> bool {
    &&& s.len() == 19
    &&& s[4] == '-' && s[7] == '-' && s[10] == ' ' && s[13] == ':' && s[16] == ':'
    &&& forall|i: int|
        0 <= i < 19 && i != 4 && i != 7 && i != 10 && i != 13 && i != 16 ==> #[trigger] is_digit(
            s[i],
        )
}

proof fn lemma_digit_char_is_digit(d: int)
    ensures
        is_digit(digit_char(d)),
{
}

/// Every timestamp renders to text of the fixed shape.
pub proof fn lemma_timestamp_text_shape(t: Timestamp)
    ensures
        is_timestamp_text(timestamp_text(t)),
{
    let s = timestamp_text(t);
    assert forall|i: int|
        0 <= i < 19 && i != 4 && i != 7 && i != 10 && i != 13 && i != 16 implies #[trigger] is_digit(
        s[i],
    ) by {
        lemma_digit_char_is_digit(t.year as int / 1000);
        lemma_digit_char_is_digit(t.year as int / 100 % 10);
        lemma_digit_char_is_digit(t.year as int / 10 % 10);
        lemma_digit_char_is_digit(t.year as int % 10);
        lemma_digit_char_is_digit(t.month as int / 10);
        lemma_digit_char_is_digit(t.month as int % 10);
        lemma_digit_char_is_digit(t.day as int / 10);
        lemma_digit_char_is_digit(t.day as int % 10);
        lemma_digit_char_is_digit(t.hour as int / 10);
        lemma_digit_char_is_digit(t.hour as int % 10);
        lemma_digit_char_is_digit(t.minute as int / 10);
        lemma_digit_char_is_digit(t.minute as int % 10);
        lemma_digit_char_is_digit(t.second as int / 10);
        lemma_digit_char_is_digit(t.second as int % 10);
    }
}

/// The one-character text of the decimal digit `d`.
fn digit_text(d: u32) -> (r: &'static str)
    requires
        d < 10,
    ensures
        r@ == seq![digit_char(d as int)],
{
    proof {
        reveal_strlit("0");
        reveal_strlit("1");
        reveal_strlit("2");
        reveal_strlit("3");
        reveal_strlit("4");
        reveal_strlit("5");
        reveal_strlit("6");
        reveal_strlit("7");
        reveal_strlit("8");
        reveal_strlit("9");
    }
    if d == 0 {
        "0"
    } else if d == 1 {
        "1"
    } else if d == 2 {
        "2"
    } else if d == 3 {
        "3"
    } else if d == 4 {
        "4"
    } else if d == 5 {
        "5"
    } else if d == 6 {
        "6"
    } else if d == 7 {
        "7"
    } else if d == 8 {
        "8"
    } else {
        "9"
    }
}

fn append_digit(out: &mut String, v: u32)
    requires
        v < 10,
    ensures
        final(out)@ == old(out)@ + seq![digit_char(v as int)],
{
    out.append(digit_text(v));
}

/// Relies on chrono's `Local::now` and its `Datelike` / `Timelike` accessors, which
/// document month 1 to 12, day 1 to 31, hour 0 to 23, minute and second 0 to 59.
#[verifier::external_body]
pub(crate) fn local_now() -> (r: Timestamp)
    ensures
        r.fields_in_range(),
{
    let now = chrono::Local::now();
    Timestamp {
        year: now.year(),
        month: now.month(),
        day: now.day(),
        hour: now.hour(),
        minute: now.minute(),
        second: now.second(),
    }
}

} // verus!
