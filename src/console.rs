//! The command console: a received line is echoed, classified as a command,
//! and answered with a sensor reading or an error line.
use vstd::prelude::*;
use vstd::utf8::{decode_utf8, valid_utf8};
use crate::line::{
    event, events, lemma_line_reported, next_held, pendings, unterminated, Event, Feed, LineBuffer,
    LINE_CAPACITY, TERMINATOR,
};
use crate::text::{ascii_bytes, decimal, trimmed, decode_text, trim_text, push_text, push_decimal};

verus! {

/// A command of the console.
#[derive(Clone, Copy, Debug, PartialEq, Eq, Structural)]
pub enum Command {
    Magnetometer,
    Accelerometer,
    Error,
}

/// A sensor channel that a command reads.
#[derive(Clone, Copy, Debug, PartialEq, Eq, Structural)]
pub enum Channel {
    Accelerometer,
    Magnetometer,
}

/// A three-axis sample of a sensor channel.
#[derive(Clone, Copy, Debug, PartialEq, Eq, Structural)]
pub struct Reading {
    pub x: i32,
    pub y: i32,
    pub z: i32,
}

/// The command named by a trimmed text.
pub open spec fn command_for(t: Seq<char>) -> Command {
    if t == "magnetometer"@ {
        Command::Magnetometer
    } else if t == "accelerometer"@ {
        Command::Accelerometer
    } else {
        Command::Error
    }
}

/// The command of a received line (the bytes before its carriage return).
pub open spec fn line_command(line: Seq<u8>) -> Command {
    command_for(trimmed(decode_utf8(line)))
}

/// Carriage return and line feed.
pub open spec fn crlf() -> Seq<u8> {
    seq![13u8, 10u8]
}

/// What is sent back for a received line before its answer: the line, then
/// an empty line.
pub open spec fn echo_of(line: Seq<u8>) -> Seq<u8> {
    line + crlf() + crlf()
}

/// The notice sent when a line does not fit in the buffer.
pub open spec fn overflow_notice() -> Seq<u8> {
    ascii_bytes("error: buffer full"@) + crlf()
}

/// The answer to an unknown command.
pub open spec fn unknown_reply() -> Seq<u8> {
    ascii_bytes("Unknown command"@) + crlf()
}

/// A reading written after `label`, axis by axis, as one line.
pub open spec fn reading_line(label: Seq<char>, r: Reading) -> Seq<u8> {
    ascii_bytes(label) + ascii_bytes(" x "@) + decimal(r.x as int) + ascii_bytes(" y "@)
        + decimal(r.y as int) + ascii_bytes(" z "@) + decimal(r.z as int) + crlf()
}

/// The channel that `c` reads, if any.
pub open spec fn channel_of(c: Command) -> Option<Channel> {
    match c {
        Command::Accelerometer => Some(Channel::Accelerometer),
        Command::Magnetometer => Some(Channel::Magnetometer),
        Command::Error => None,
    }
}

/// The answer to `c`, given the fresh sample of its channel, if there is
/// one: nothing is sent when the sensor has no new sample.
pub open spec fn response(c: Command, sample: Option<Reading>) -> Seq<u8> {
    match c {
        Command::Accelerometer => match sample {
            Some(r) => reading_line("Accelerometer:"@, r),
            None => Seq::empty(),
        },
        Command::Magnetometer => match sample {
            Some(r) => reading_line("Magnetometer:"@, r),
            None => Seq::empty(),
        },
        Command::Error => unknown_reply(),
    }
}

impl Command {
    /// The sensor channel to query before answering this command.
    pub fn channel(&self) -> (ch: Option<Channel>)
        ensures
            ch == channel_of(*self),
    {
        match self {
            Command::Accelerometer => Some(Channel::Accelerometer),
            Command::Magnetometer => Some(Channel::Magnetometer),
            Command::Error => None,
        }
    }
}

/// Appends carriage return and line feed to `out`.
fn push_crlf(out: &mut Vec<u8>)
    ensures
        final(out)@ == old(out)@ + crlf(),
{
    out.push(13u8);
    out.push(10u8);
    assert(final(out)@ =~= old(out)@ + crlf());
}

/// The command named by `text` once white space around it is removed.
pub fn classify(text: &str) -> (c: Command)
    ensures
        c == command_for(trimmed(text@)),
{
    let t = trim_text(text).to_owned();
    if t == "magnetometer".to_owned() {
        Command::Magnetometer
    } else if t == "accelerometer".to_owned() {
        Command::Accelerometer
    } else {
        Command::Error
    }
}

/// The command of a received line; `None` when the line is not UTF-8.
pub fn parse_command(line: &[u8]) -> (c: Option<Command>)
    ensures
        c.is_some() == valid_utf8(line@),
        c.is_some() ==> c.unwrap() == line_command(line@),
{
    match decode_text(line) {
        Some(text) => Some(classify(text)),
        None => None,
    }
}

/// The bytes to send for `command`, given the fresh sample of its channel
/// (`None` when the sensor reports no new data).
pub fn execute_command(command: Command, sample: Option<Reading>) -> (out: Vec<u8>)
    ensures
        out@ == response(command, sample),
{
    let mut out: Vec<u8> = Vec::new();
    match command {
        Command::Error => {
            proof {
                reveal_strlit("Unknown command");
            }
            push_text(&mut out, "Unknown command");
            push_crlf(&mut out);
            assert(out@ =~= unknown_reply());
        },
        Command::Accelerometer => {
            if let Some(r) = sample {
                proof {
                    reveal_strlit("Accelerometer:");
                }
                push_text(&mut out, "Accelerometer:");
                push_reading(&mut out, r);
                assert(out@ =~= reading_line("Accelerometer:"@, r));
            }
        },
        Command::Magnetometer => {
            if let Some(r) = sample {
                proof {
                    reveal_strlit("Magnetometer:");
                }
                push_text(&mut out, "Magnetometer:");
                push_reading(&mut out, r);
                assert(out@ =~= reading_line("Magnetometer:"@, r));
            }
        },
    }
    out
}

/// Appends the three axes of `r` and the line end to `out`.
fn push_reading(out: &mut Vec<u8>, r: Reading)
    ensures
        final(out)@ == old(out)@ + ascii_bytes(" x "@) + decimal(r.x as int) + ascii_bytes(
            " y "@,
        ) + decimal(r.y as int) + ascii_bytes(" z "@) + decimal(r.z as int) + crlf(),
{
    proof {
        reveal_strlit(" x ");
        reveal_strlit(" y ");
        reveal_strlit(" z ");
    }
    push_text(out, " x ");
    push_decimal(out, r.x);
    push_text(out, " y ");
    push_decimal(out, r.y);
    push_text(out, " z ");
    push_decimal(out, r.z);
    push_crlf(out);
}

/// The bytes of the overflow notice.
pub fn overflow_text() -> (out: Vec<u8>)
    ensures
        out@ == overflow_notice(),
{
    let mut out: Vec<u8> = Vec::new();
    proof {
        reveal_strlit("error: buffer full");
    }
    push_text(&mut out, "error: buffer full");
    push_crlf(&mut out);
    assert(out@ =~= overflow_notice());
    out
}

/// What the console does after receiving one byte.
pub enum Step {
    /// Nothing to send; keep reading.
    Wait,
    /// The line did not fit: send this notice and start a new line.
    Overflow(Vec<u8>),
    /// A line ended: send `echo`, then carry out `command`.
    Line { echo: Vec<u8>, command: Command },
    /// A line ended that is not valid UTF-8.
    Malformed,
}

/// Whether `s` is the step owed for receiving `b` with `buf` held.
pub open spec fn step_for(buf: Seq<u8>, b: u8, s: Step) -> bool {
    match event(buf, b) {
        Event::Pending => s is Wait,
        Event::Overflow => s matches Step::Overflow(notice) && notice@ == overflow_notice(),
        Event::Line(line) => if valid_utf8(line) {
            s matches Step::Line { echo, command } && echo@ == echo_of(line) && command
                == line_command(line)
        } else {
            s is Malformed
        },
    }
}

/// The line-reading side of the command console.
pub struct Console {
    buffer: LineBuffer,
}

impl View for Console {
    type V = Seq<u8>;

    /// The bytes of the line received so far.
    closed spec fn view(&self) -> Seq<u8> {
        self.buffer@
    }
}

impl Console {
    /// The line buffer is well formed.
    pub closed spec fn wf(&self) -> bool {
        self.buffer.wf()
    }

    /// A console waiting for the first byte of a line.
    pub fn new() -> (c: Self)
        ensures
            c.wf(),
            c@ == Seq::<u8>::empty(),
    {
        Console { buffer: LineBuffer::new() }
    }

    /// Takes one received byte and says what to send or do.
    pub fn receive(&mut self, b: u8) -> (s: Step)
        requires
            old(self).wf(),
        ensures
            final(self).wf(),
            final(self)@ == next_held(old(self)@, b),
            step_for(old(self)@, b, s),
    {
        match self.buffer.feed(b) {
            Feed::Pending => Step::Wait,
            Feed::Overflow => Step::Overflow(overflow_text()),
            Feed::Line(line) => match parse_command(line.as_slice()) {
                Some(command) => {
                    let mut echo = line;
                    push_crlf(&mut echo);
                    push_crlf(&mut echo);
                    Step::Line { echo, command }
                },
                None => Step::Malformed,
            },
        }
    }
}

/// A line of at most `LINE_CAPACITY` bytes ended by a carriage return gives
/// one classification, at the carriage return: `Accelerometer` exactly when
/// its trimmed text is `accelerometer`, `Magnetometer` exactly when it is
/// `magnetometer`, and `Error` otherwise.
pub proof fn lemma_line_classified(line: Seq<u8>)
    requires
        line.len() <= LINE_CAPACITY,
        unterminated(line),
    ensures
        events(Seq::empty(), line.push(TERMINATOR)) == pendings(line.len()).push(
            Event::Line(line),
        ),
        (line_command(line) == Command::Accelerometer) == (trimmed(decode_utf8(line))
            == "accelerometer"@),
        (line_command(line) == Command::Magnetometer) == (trimmed(decode_utf8(line))
            == "magnetometer"@),
        (line_command(line) == Command::Error) == (trimmed(decode_utf8(line)) != "accelerometer"@
            && trimmed(decode_utf8(line)) != "magnetometer"@),
{
    lemma_line_reported(line);
    reveal_strlit("accelerometer");
    reveal_strlit("magnetometer");
    assert("accelerometer"@ != "magnetometer"@) by {
        assert("accelerometer"@.len() != "magnetometer"@.len());
    }
}

/// Asking for a sensor channel that has no new sample sends nothing, so the
/// same command repeated without a new sample in between is answered once.
pub proof fn lemma_no_new_sample_is_silent(c: Command)
    requires
        c != Command::Error,
    ensures
        response(c, None) == Seq::<u8>::empty(),
{
}

} // verus!
