use microbit_demo::echo::echo_reversed;

#[test]
fn echo_reverses_line_and_terminator() {
    assert_eq!(echo_reversed(b"abc"), b"\rcba\n\r".to_vec());
}

#[test]
fn echo_of_empty_line() {
    assert_eq!(echo_reversed(b""), b"\r\n\r".to_vec());
}
