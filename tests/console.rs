use microbit_demo::console::{
    classify, execute_command, overflow_text, parse_command, Channel, Command, Console, Reading,
    Step,
};
use microbit_demo::line::{Feed, LineBuffer};
use microbit_demo::text::push_decimal;

/// Feeds `input` to `console` and collects what it would send, with
/// `sample` as the sensor's answer for every command.
fn exchange(console: &mut Console, input: &[u8], sample: Option<Reading>) -> (Vec<u8>, Vec<Command>) {
    let mut out = Vec::new();
    let mut commands = Vec::new();
    for &b in input {
        match console.receive(b) {
            Step::Wait => {}
            Step::Overflow(notice) => out.extend_from_slice(&notice),
            Step::Line { echo, command } => {
                out.extend_from_slice(&echo);
                out.extend_from_slice(&execute_command(command, sample));
                commands.push(command);
            }
            Step::Malformed => panic!("malformed line"),
        }
    }
    (out, commands)
}

#[test]
fn accelerometer_line_with_fresh_sample() {
    let mut console = Console::new();
    let sample = Some(Reading { x: 10, y: -5, z: 100 });
    let (out, commands) = exchange(&mut console, b"accelerometer\r", sample);
    assert_eq!(out, b"accelerometer\r\n\r\nAccelerometer: x 10 y -5 z 100\r\n".to_vec());
    assert_eq!(commands, vec![Command::Accelerometer]);
}

#[test]
fn magnetometer_line_with_fresh_sample() {
    let mut console = Console::new();
    let sample = Some(Reading { x: -300, y: 0, z: 42 });
    let (out, _) = exchange(&mut console, b"magnetometer\r", sample);
    assert_eq!(out, b"magnetometer\r\n\r\nMagnetometer: x -300 y 0 z 42\r\n".to_vec());
}

#[test]
fn unknown_line_is_echoed_then_rejected() {
    let mut console = Console::new();
    let (out, commands) = exchange(&mut console, b"foo\r", None);
    assert_eq!(out, b"foo\r\n\r\nUnknown command\r\n".to_vec());
    assert_eq!(commands, vec![Command::Error]);
}

#[test]
fn thirty_three_bytes_overflow_then_new_line() {
    let mut console = Console::new();
    let input = [b'a'; 33];
    for i in 0..32 {
        assert!(matches!(console.receive(input[i]), Step::Wait));
    }
    match console.receive(input[32]) {
        Step::Overflow(notice) => assert_eq!(notice, b"error: buffer full\r\n".to_vec()),
        _ => panic!("expected an overflow"),
    }
    let (out, commands) = exchange(&mut console, b"magnetometer\r", None);
    assert_eq!(out, b"magnetometer\r\n\r\n".to_vec());
    assert_eq!(commands, vec![Command::Magnetometer]);
}

#[test]
fn overflowed_attempt_gives_no_command() {
    let mut console = Console::new();
    let (out, commands) = exchange(&mut console, &[b'z'; 40], None);
    assert_eq!(out, b"error: buffer full\r\n".to_vec());
    assert!(commands.is_empty());
}

#[test]
fn line_of_thirty_two_bytes_fits() {
    let mut console = Console::new();
    let mut input = vec![b' '; 19];
    input.extend_from_slice(b"accelerometer");
    assert_eq!(input.len(), 32);
    input.push(b'\r');
    let (_, commands) = exchange(&mut console, &input, None);
    assert_eq!(commands, vec![Command::Accelerometer]);
}

#[test]
fn classification_is_exact_after_trimming() {
    assert_eq!(classify("accelerometer"), Command::Accelerometer);
    assert_eq!(classify("magnetometer"), Command::Magnetometer);
    assert_eq!(classify(" \t accelerometer \u{3000}"), Command::Accelerometer);
    assert_eq!(classify("Accelerometer"), Command::Error);
    assert_eq!(classify("accel erometer"), Command::Error);
    assert_eq!(classify(""), Command::Error);
}

#[test]
fn repeated_command_without_new_sample_is_silent() {
    let mut console = Console::new();
    let fresh = Some(Reading { x: 1, y: 2, z: 3 });
    let (first, _) = exchange(&mut console, b"accelerometer\r", fresh);
    assert_eq!(first, b"accelerometer\r\n\r\nAccelerometer: x 1 y 2 z 3\r\n".to_vec());
    assert!(execute_command(Command::Accelerometer, None).is_empty());
    assert!(execute_command(Command::Magnetometer, None).is_empty());
    let (second, _) = exchange(&mut console, b"accelerometer\r", None);
    assert_eq!(second, b"accelerometer\r\n\r\n".to_vec());
}

#[test]
fn error_command_ignores_sample() {
    let out = execute_command(Command::Error, Some(Reading { x: 1, y: 1, z: 1 }));
    assert_eq!(out, b"Unknown command\r\n".to_vec());
}

#[test]
fn invalid_utf8_line_is_malformed() {
    let mut console = Console::new();
    assert!(matches!(console.receive(0xff), Step::Wait));
    assert!(matches!(console.receive(b'\r'), Step::Malformed));
    assert_eq!(parse_command(&[0xc0, 0x80]), None);
    assert_eq!(parse_command(b" magnetometer\n"), Some(Command::Magnetometer));
}

#[test]
fn commands_name_their_channels() {
    assert_eq!(Command::Accelerometer.channel(), Some(Channel::Accelerometer));
    assert_eq!(Command::Magnetometer.channel(), Some(Channel::Magnetometer));
    assert_eq!(Command::Error.channel(), None);
}

#[test]
fn overflow_notice_text() {
    assert_eq!(overflow_text(), b"error: buffer full\r\n".to_vec());
}

#[test]
fn decimals_cover_the_i32_range() {
    let mut out = Vec::new();
    push_decimal(&mut out, i32::MIN);
    out.push(b' ');
    push_decimal(&mut out, 0);
    out.push(b' ');
    push_decimal(&mut out, i32::MAX);
    assert_eq!(out, b"-2147483648 0 2147483647".to_vec());
}

#[test]
fn line_buffer_hands_out_line_without_terminator() {
    let mut buf = LineBuffer::new();
    assert!(matches!(buf.feed(b'o'), Feed::Pending));
    assert!(matches!(buf.feed(b'k'), Feed::Pending));
    match buf.feed(13) {
        Feed::Line(line) => assert_eq!(line, b"ok".to_vec()),
        _ => panic!("expected a line"),
    }
    match buf.feed(13) {
        Feed::Line(line) => assert!(line.is_empty()),
        _ => panic!("expected an empty line"),
    }
}
