//! The three lines of text on a lock surface: the clock, the user and the
//! masked password.

use vstd::prelude::*;
use vstd::string::StringExecFns;
use chrono::Timelike;
use crate::strings::{digit, digit_char};

verus! {

/// The most mask characters that the password line shows.
pub const MASK_LIMIT: u32 = 64;

/// Size in pixels of the clock line.
pub const CLOCK_SIZE: u32 = 64;

/// Size in pixels of the user line and the password line.
pub const LINE_SIZE: u32 = 32;

/// A number below one hundred in two decimal digits.
pub open spec fn two_digits(n: int) -> Seq<char> {
    seq![digit(n / 10), digit(n % 10)]
}

/// The clock line: hour and minute in two digits each, a colon between
/// them, and a line break.
pub open spec fn clock_text(hour: int, minute: int) -> Seq<char> {
    two_digits(hour) + seq![':'] + two_digits(minute) + seq!['\n']
}

/// The user line: the user's name after `User: `, and a line break.
pub open spec fn user_text(user: Seq<char>) -> Seq<char> {
    "User: "@ + user + seq!['\n']
}

/// Number of mask characters shown for `entered` characters of password.
pub open spec fn mask_len(entered: int) -> int {
    if entered < MASK_LIMIT {
        entered
    } else {
        MASK_LIMIT as int
    }
}

/// The password line: one `*` for each character entered, up to the limit,
/// after `pwd: `.
pub open spec fn password_text(entered: int) -> Seq<char> {
    "pwd: "@ + Seq::new(mask_len(entered) as nat, |i: int| '*')
}

fn push_two_digits(out: &mut String, n: u32)
    requires
        n < 100,
    ensures
        final(out)@ == old(out)@ + two_digits(n as int),
{
    out.push(digit_char((n / 10) as u8));
    out.push(digit_char((n % 10) as u8));
    assert(out@ =~= old(out)@ + two_digits(n as int));
}

/// The clock line for the given time of day.
pub fn clock_line(hour: u32, minute: u32) -> (line: String)
    requires
        hour < 24,
        minute < 60,
    ensures
        line@ == clock_text(hour as int, minute as int),
{
    let mut line = String::new();
    push_two_digits(&mut line, hour);
    line.push(':');
    push_two_digits(&mut line, minute);
    line.push('\n');
    assert(line@ =~= clock_text(hour as int, minute as int));
    line
}

/// The user line for the given name.
pub fn user_line(user: &str) -> (line: String)
    ensures
        line@ == user_text(user@),
{
    let mut line = String::from_str("User: ");
    line.append(user);
    line.push('\n');
    line
}

/// The password line for the given number of characters entered.
pub fn password_line(entered: u32) -> (line: String)
    ensures
        line@ == password_text(entered as int),
        line@.len() == "pwd: "@.len() + mask_len(entered as int),
{
    let shown = if entered < MASK_LIMIT { entered } else { MASK_LIMIT };
    let mut line = String::from_str("pwd: ");
    let mut n: u32 = 0;
    while n < shown
        invariant
            n <= shown,
            line@ == "pwd: "@ + Seq::new(n as nat, |i: int| '*'),
        decreases shown - n,
    {
        line.push('*');
        n += 1;
        assert(line@ =~= "pwd: "@ + Seq::new(n as nat, |i: int| '*'));
    }
    line
}

/// `chrono::Local::now` with `Timelike::hour` and `Timelike::minute`: the
/// hour and the minute of the local time of day. The hour is at most 23
/// and the minute at most 59, whatever the clock says.
#[verifier::external_body]
fn local_time() -> (now: (u32, u32))
    ensures
        now.0 < 24,
        now.1 < 60,
{
    let now = chrono::Local::now();
    (now.hour(), now.minute())
}

/// The clock line for the local time of day.
pub fn clock_line_now() -> (line: String)
    ensures
        exists|hour: int, minute: int|
            0 <= hour < 24 && 0 <= minute < 60 && line@ == #[trigger] clock_text(hour, minute),
{
    let (hour, minute) = local_time();
    clock_line(hour, minute)
}

/// A line of text with the size, in pixels, in which it is laid out.
#[derive(Debug)]
pub struct TextLine {
    /// The text.
    pub text: String,
    /// The size in pixels.
    pub size: u32,
}

/// The text of a frame as pairs of characters and size: the clock line,
/// the user line and the password line, in this order.
pub open spec fn frame_lines(hour: int, minute: int, user: Seq<char>, entered: int) -> Seq<
    (Seq<char>, u32),
> {
    seq![
        (clock_text(hour, minute), CLOCK_SIZE),
        (user_text(user), LINE_SIZE),
        (password_text(entered), LINE_SIZE),
    ]
}

/// The lines as pairs of characters and size.
pub open spec fn lines_of(lines: Seq<TextLine>) -> Seq<(Seq<char>, u32)> {
    lines.map_values(|l: TextLine| (l.text@, l.size))
}

/// The text of a frame for the given time of day, user and number of
/// password characters entered.
pub fn frame_text(hour: u32, minute: u32, user: &str, entered: u32) -> (lines: Vec<TextLine>)
    requires
        hour < 24,
        minute < 60,
    ensures
        lines_of(lines@) == frame_lines(hour as int, minute as int, user@, entered as int),
{
    let mut lines: Vec<TextLine> = Vec::new();
    lines.push(TextLine { text: clock_line(hour, minute), size: CLOCK_SIZE });
    lines.push(TextLine { text: user_line(user), size: LINE_SIZE });
    lines.push(TextLine { text: password_line(entered), size: LINE_SIZE });
    assert(lines_of(lines@) =~= frame_lines(hour as int, minute as int, user@, entered as int));
    lines
}

/// The text of a frame for the local time of day.
pub fn frame_text_now(user: &str, entered: u32) -> (lines: Vec<TextLine>)
    ensures
        exists|hour: int, minute: int|
            0 <= hour < 24 && 0 <= minute < 60 && lines_of(lines@) == #[trigger] frame_lines(
                hour,
                minute,
                user@,
                entered as int,
            ),
{
    let (hour, minute) = local_time();
    frame_text(hour, minute, user, entered)
}

} // verus!
