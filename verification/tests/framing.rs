use devptp::framing::{is_end_of_stream, json_line, MAX_MESSAGE_BYTES};

#[test]
fn json_texts_are_framed_as_lines() {
    assert_eq!(json_line(b"{\"id\":1}".to_vec()), b"{\"id\":1}\n".to_vec());
    assert_eq!(json_line(Vec::new()), b"\n".to_vec());
    assert!(is_end_of_stream(0));
    assert!(!is_end_of_stream(1));
    assert_eq!(MAX_MESSAGE_BYTES, 1024 * 1024);
}
