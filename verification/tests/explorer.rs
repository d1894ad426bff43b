use plnk::explorer::base64_encode;

#[test]
fn base64_rfc4648_vectors() {
    assert_eq!(base64_encode(b""), "");
    assert_eq!(base64_encode(b"f"), "Zg==");
    assert_eq!(base64_encode(b"fo"), "Zm8=");
    assert_eq!(base64_encode(b"foo"), "Zm9v");
    assert_eq!(base64_encode(b"foob"), "Zm9vYg==");
    assert_eq!(base64_encode(b"fooba"), "Zm9vYmE=");
    assert_eq!(base64_encode(b"foobar"), "Zm9vYmFy");
}

#[test]
fn base64_high_bits() {
    assert_eq!(base64_encode(&[0xff, 0xff, 0xff]), "////");
    assert_eq!(base64_encode(&[0x00, 0x00, 0x00]), "AAAA");
}

#[test]
fn json_strings_escape_quotes_backslashes_and_controls() {
    let text = plnk::explorer::id_name_object("a", "x\u{1}\"\\\n\u{8}\u{c}\t\r\u{1f}é");
    assert_eq!(text, "{\"id\":\"a\",\"name\":\"x\\u0001\\\"\\\\\\n\\b\\f\\t\\r\\u001fé\"}");
}
