use pyra_core::encode::{args_empty, args_initialize, args_launch, args_set_breakpoints, args_uint, build_payload, fmt_decimal_u64};
use pyra_core::frame::{decode_frame, encode_frame, fmt_decimal, parse_decimal, FramingError};

fn frame_bytes(payload: &str) -> Vec<u8> {
    let mut v = Vec::new();
    v.extend_from_slice(format!("Content-Length: {}\r\n\r\n", payload.len()).as_bytes());
    v.extend_from_slice(payload.as_bytes());
    v
}

#[test]
fn encode_frame_exact_bytes() {
    let body = b"{\"seq\":1}".to_vec();
    let framed = encode_frame(&body);
    assert_eq!(framed, frame_bytes("{\"seq\":1}"));
}

#[test]
fn decode_then_reencode_is_byte_identical() {
    let body = b"{\"seq\":12,\"type\":\"request\"}".to_vec();
    let framed = encode_frame(&body);
    let (decoded, next) = decode_frame(&framed, 0).expect("canonical frame must decode");
    assert_eq!(decoded, body);
    assert_eq!(next, framed.len());
    let reframed = encode_frame(&decoded);
    assert_eq!(reframed, framed);
}

#[test]
fn decode_two_frames_in_sequence() {
    let mut buf = encode_frame(&b"first".to_vec());
    let second = encode_frame(&b"second!".to_vec());
    buf.extend_from_slice(&second);
    let (one, next) = decode_frame(&buf, 0).unwrap();
    assert_eq!(one, b"first".to_vec());
    let (two, end) = decode_frame(&buf, next).unwrap();
    assert_eq!(two, b"second!".to_vec());
    assert_eq!(end, buf.len());
}

#[test]
fn declared_length_past_end_is_truncated_not_partial() {
    let framed = encode_frame(&b"hello world".to_vec());
    // cut the body short: the declared length now exceeds the buffer
    let cut = framed[..framed.len() - 4].to_vec();
    assert_eq!(decode_frame(&cut, 0), Err(FramingError::Truncated));
}

#[test]
fn missing_length_header_is_rejected() {
    let buf = b"Content-Type: text\r\n\r\nbody".to_vec();
    assert_eq!(decode_frame(&buf, 0), Err(FramingError::MissingHeader));
}

#[test]
fn unparsable_length_is_rejected() {
    let buf = b"Content-Length: ten\r\n\r\n0123456789".to_vec();
    assert_eq!(decode_frame(&buf, 0), Err(FramingError::MissingHeader));
}

#[test]
fn header_without_blank_line_is_incomplete() {
    let buf = b"Content-Length: 4\r\n".to_vec();
    assert_eq!(decode_frame(&buf, 0), Err(FramingError::MissingHeader));
}

#[test]
fn extra_header_lines_are_tolerated() {
    let buf = b"X-First: yes\r\nContent-Length: 4\r\n\r\nbody".to_vec();
    let (body, next) = decode_frame(&buf, 0).unwrap();
    assert_eq!(body, b"body".to_vec());
    assert_eq!(next, buf.len());
}

#[test]
fn decimal_rendering_and_parsing() {
    assert_eq!(fmt_decimal(0), b"0".to_vec());
    assert_eq!(fmt_decimal(907), b"907".to_vec());
    assert_eq!(fmt_decimal_u64(18446744073709551615), b"18446744073709551615".to_vec());
    let digits = b"  42 ".to_vec();
    assert_eq!(parse_decimal(&digits, 2, 4), Some(42));
    assert_eq!(parse_decimal(&digits, 0, 5), None);
    assert_eq!(parse_decimal(&digits, 2, 2), None);
}

#[test]
fn payload_carries_seq_command_and_arguments() {
    let args = args_uint("threadId", 7);
    let payload = build_payload(35, "continue", &args);
    assert_eq!(
        String::from_utf8(payload).unwrap(),
        "{\"seq\":35,\"type\":\"request\",\"command\":\"continue\",\"arguments\":{\"threadId\":7}}"
    );
}

#[test]
fn empty_arguments_render_as_empty_object() {
    let payload = build_payload(4, "configurationDone", &args_empty());
    assert_eq!(
        String::from_utf8(payload).unwrap(),
        "{\"seq\":4,\"type\":\"request\",\"command\":\"configurationDone\",\"arguments\":{}}"
    );
}

#[test]
fn launch_arguments_escape_special_characters() {
    let args = args_launch("C:\\proj\\main \"x\".py", "/tmp/dir");
    let text = String::from_utf8(args).unwrap();
    assert!(text.contains("\"program\":\"C:\\\\proj\\\\main \\\"x\\\".py\""));
    assert!(text.contains("\"cwd\":\"/tmp/dir\""));
    assert!(text.contains("\"stopOnEntry\":false"));
}

#[test]
fn initialize_arguments_announce_the_client() {
    let text = String::from_utf8(args_initialize()).unwrap();
    assert!(text.contains("\"clientID\":\"pyra\""));
    assert!(text.contains("\"adapterID\":\"python\""));
    assert!(text.contains("\"supportsRunInTerminalRequest\":false"));
}

#[test]
fn breakpoint_arguments_list_every_line() {
    let args = args_set_breakpoints("main.py", &vec![5, 9, 120]);
    assert_eq!(
        String::from_utf8(args).unwrap(),
        "{\"source\":{\"path\":\"main.py\"},\"breakpoints\":[{\"line\":5},{\"line\":9},{\"line\":120}]}"
    );
}
