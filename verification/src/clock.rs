//! The local wall-clock time, as the terminal shows and records it.
//!
//! The program reads the clock and hands over its fields; the library writes
//! them as `year-MM-DD HH:MM:SS`.
use vstd::prelude::*;
use vstd::string::StringExecFns;

verus! {

/// A reading of the local clock.
#[derive(Debug, Clone, Copy, PartialEq, Eq)]
pub struct LocalTime {
    pub year: i32,
    /// 1 to 12.
    pub month: u32,
    /// 1 to 31.
    pub day: u32,
    /// 0 to 23.
    pub hour: u32,
    /// 0 to 59.
    pub minute: u32,
    /// 0 to 60 (60 during a leap second).
    pub second: u32,
}

impl LocalTime {
    /// Each field lies in its range.
    pub open spec fn wf(&self) -> bool {
        &&& 1 <= self.month <= 12
        &&& 1 <= self.day <= 31
        &&& self.hour <= 23
        &&& self.minute <= 59
        &&& self.second <= 60
    }
}

/// The character of the decimal digit `d`.
pub open spec fn digit_char(d: int) -> char {
    (('0' as int) + d) as char
}

/// The decimal digits of `n`, without leading zeros.
pub open spec fn decimal(n: nat) -> Seq<char>
    decreases n,
{
    if n < 10 {
        seq![digit_char(n as int)]
    } else {
        decimal(n / 10).push(digit_char((n % 10) as int))
    }
}

/// The decimal digits of `n`, with zeros in front up to `width` characters.
pub open spec fn zero_padded(n: nat, width: nat) -> Seq<char> {
    let digits = decimal(n);
    if digits.len() >= width {
        digits
    } else {
        Seq::new((width - digits.len()) as nat, |i: int| '0') + digits
    }
}

/// A year: four digits from 0 to 9999, otherwise a sign and at least four digits.
pub open spec fn year_text(year: int) -> Seq<char> {
    if 0 <= year <= 9999 {
        zero_padded(year as nat, 4)
    } else if year > 9999 {
        seq!['+'] + zero_padded(year as nat, 4)
    } else {
        seq!['-'] + zero_padded((-year) as nat, 4)
    }
}

/// A time written as `year-MM-DD HH:MM:SS`.
pub open spec fn timestamp_text(t: LocalTime) -> Seq<char> {
    year_text(t.year as int) + seq!['-'] + zero_padded(t.month as nat, 2) + seq!['-']
        + zero_padded(t.day as nat, 2) + seq![' '] + zero_padded(t.hour as nat, 2) + seq![':']
        + zero_padded(t.minute as nat, 2) + seq![':'] + zero_padded(t.second as nat, 2)
}

/// The text of the decimal digit `d`.
fn digit_text(d: u64) -> (text: &'static str)
    requires
        d < 10,
    ensures
        text@ == seq![digit_char(d as int)],
{
    proof {
        reveal_strlit("0");
        reveal_strlit("1");
        reveal_strlit("2");
        reveal_strlit("3");
        reveal_strlit("4");
        reveal_strlit("5");
        reveal_strlit("6");
        reveal_strlit("7");
        reveal_strlit("8");
        reveal_strlit("9");
    }
    match d {
        0 => "0",
        1 => "1",
        2 => "2",
        3 => "3",
        4 => "4",
        5 => "5",
        6 => "6",
        7 => "7",
        8 => "8",
        _ => "9",
    }
}

/// Appends the decimal digits of `n` to `out`.
fn push_decimal(out: &mut String, n: u64)
    ensures
        final(out)@ == old(out)@ + decimal(n as nat),
    decreases n,
{
    if n >= 10 {
        push_decimal(out, n / 10);
    }
    out.append(digit_text(n % 10));
    assert(final(out)@ =~= old(out)@ + decimal(n as nat));
}

/// The number of decimal digits of `n`.
fn decimal_length(n: u64) -> (len: u64)
    ensures
        len == decimal(n as nat).len(),
        1 <= len <= n as int + 1,
    decreases n,
{
    if n < 10 {
        1
    } else {
        decimal_length(n / 10) + 1
    }
}

/// Appends the decimal digits of `n`, with zeros in front up to `width` characters.
fn push_zero_padded(out: &mut String, n: u64, width: u64)
    ensures
        final(out)@ == old(out)@ + zero_padded(n as nat, width as nat),
{
    let len = decimal_length(n);
    let mut zeros: u64 = 0;
    let missing = if len < width {
        width - len
    } else {
        0
    };
    proof {
        reveal_strlit("0");
    }
    while zeros < missing
        invariant
            zeros <= missing,
            out@ == old(out)@ + Seq::new(zeros as nat, |i: int| '0'),
        decreases missing - zeros,
    {
        out.append("0");
        proof {
            reveal_strlit("0");
        }
        zeros += 1;
        assert(out@ =~= old(out)@ + Seq::new(zeros as nat, |i: int| '0'));
    }
    push_decimal(out, n);
    if len >= width {
        assert(Seq::new(0, |i: int| '0') + decimal(n as nat) =~= decimal(n as nat));
    }
    assert(out@ =~= old(out)@ + zero_padded(n as nat, width as nat));
}

/// Writes the clock reading `now` as `year-MM-DD HH:MM:SS`, the way chrono
/// writes the format `%Y-%m-%d %H:%M:%S`.
pub fn format_timestamp(now: &LocalTime) -> (text: String)
    requires
        now.wf(),
    ensures
        text@ == timestamp_text(*now),
{
    let mut text = String::new();
    let year = now.year as i64;
    if 0 <= year && year <= 9999 {
        push_zero_padded(&mut text, year as u64, 4);
    } else if year > 9999 {
        text.append("+");
        push_zero_padded(&mut text, year as u64, 4);
    } else {
        text.append("-");
        push_zero_padded(&mut text, (-year) as u64, 4);
    }
    text.append("-");
    push_zero_padded(&mut text, now.month as u64, 2);
    text.append("-");
    push_zero_padded(&mut text, now.day as u64, 2);
    text.append(" ");
    push_zero_padded(&mut text, now.hour as u64, 2);
    text.append(":");
    push_zero_padded(&mut text, now.minute as u64, 2);
    text.append(":");
    push_zero_padded(&mut text, now.second as u64, 2);
    proof {
        reveal_strlit("+");
        reveal_strlit("-");
        reveal_strlit(" ");
        reveal_strlit(":");
    }
    assert(text@ =~= timestamp_text(*now));
    text
}

} // verus!
