//! The build timestamp as plain calendar fields, and its fixed rendering
//! `YYYY-MM-DD HH:MM:SS` for the adaptor template.

use vstd::prelude::*;
use crate::hexcode::{hex_digit, hex_digit_str};

verus! {

/// A calendar timestamp held as plain fields, so the rendering below is a
/// pure function of them.
#[derive(Debug, Clone, Copy, PartialEq, Eq, Structural)]
pub struct BuildTime {
    pub year: u16,
    pub month: u8,
    pub day: u8,
    pub hour: u8,
    pub minute: u8,
    pub second: u8,
}

impl BuildTime {
    /// Fields within calendar range, and a four-digit year.
    pub open spec fn wf(&self) -> bool {
        &&& self.year <= 9999
        &&& 1 <= self.month <= 12
        &&& 1 <= self.day <= 31
        &&& self.hour < 24
        &&& self.minute < 60
        &&& self.second < 60
    }

    /// Make a timestamp from its fields.
    pub fn new(year: u16, month: u8, day: u8, hour: u8, minute: u8, second: u8) -> (t: BuildTime)
        requires
            year <= 9999,
            1 <= month <= 12,
            1 <= day <= 31,
            hour < 24,
            minute < 60,
            second < 60,
        ensures
            t == (BuildTime { year, month, day, hour, minute, second }),
            t.wf(),
    {
        BuildTime { year, month, day, hour, minute, second }
    }
}

/// A number under 100 as two decimal digit characters, zero padded.
pub open spec fn two_digits(n: u8) -> Seq<char>
    recommends
        n < 100,
{
    seq![hex_digit((n / 10) as u8), hex_digit((n % 10) as u8)]
}

/// A number under 10000 as four decimal digit characters, zero padded.
pub open spec fn four_digits(n: u16) -> Seq<char>
    recommends
        n <= 9999,
{
    seq![
        hex_digit((n / 1000) as u8),
        hex_digit(((n / 100) % 10) as u8),
        hex_digit(((n / 10) % 10) as u8),
        hex_digit((n % 10) as u8),
    ]
}

/// The timestamp rendering the adaptor template embeds.
pub open spec fn time_text_spec(t: BuildTime) -> Seq<char>
    recommends
        t.wf(),
{
    four_digits(t.year) + "-"@ + two_digits(t.month) + "-"@ + two_digits(t.day) + " "@
        + two_digits(t.hour) + ":"@ + two_digits(t.minute) + ":"@ + two_digits(t.second)
}

/// Append a number under 100 as two zero-padded decimal digits.
fn push_two_digits(out: &mut String, n: u8)
    requires
        n < 100,
    ensures
        final(out)@ == old(out)@ + two_digits(n),
{
    out.append(hex_digit_str(n / 10));
    out.append(hex_digit_str(n % 10));
    proof {
        assert(out@ =~= old(out)@ + two_digits(n));
    }
}

/// Render a timestamp as `YYYY-MM-DD HH:MM:SS`.
pub fn render_time(t: &BuildTime) -> (out: String)
    requires
        t.wf(),
    ensures
        out@ == time_text_spec(*t),
{
    let mut out = String::new();
    out.append(hex_digit_str((t.year / 1000) as u8));
    out.append(hex_digit_str(((t.year / 100) % 10) as u8));
    out.append(hex_digit_str(((t.year / 10) % 10) as u8));
    out.append(hex_digit_str((t.year % 10) as u8));
    out.append("-");
    push_two_digits(&mut out, t.month);
    out.append("-");
    push_two_digits(&mut out, t.day);
    out.append(" ");
    push_two_digits(&mut out, t.hour);
    out.append(":");
    push_two_digits(&mut out, t.minute);
    out.append(":");
    push_two_digits(&mut out, t.second);
    proof {
        assert(out@ =~= time_text_spec(*t));
    }
    out
}

} // verus!
