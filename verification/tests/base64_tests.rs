use deck_toolbox::base64::{base64_decode, base64_encode};

#[test]
fn encode_known_vectors() {
    assert_eq!(base64_encode(""), "");
    assert_eq!(base64_encode("f"), "Zg==");
    assert_eq!(base64_encode("fo"), "Zm8=");
    assert_eq!(base64_encode("foo"), "Zm9v");
    assert_eq!(base64_encode("foob"), "Zm9vYg==");
    assert_eq!(base64_encode("fooba"), "Zm9vYmE=");
    assert_eq!(base64_encode("foobar"), "Zm9vYmFy");
    assert_eq!(base64_encode("password"), "cGFzc3dvcmQ=");
}

#[test]
fn encode_uses_utf8_bytes() {
    // "é" is the two bytes C3 A9.
    assert_eq!(base64_encode("é"), "w6k=");
    assert_eq!(base64_encode("a+b/c?"), "YStiL2M/");
}

#[test]
fn decode_known_vectors() {
    assert_eq!(base64_decode("Zg==").unwrap(), "f");
    assert_eq!(base64_decode("Zm8=").unwrap(), "fo");
    assert_eq!(base64_decode("Zm9vYmFy").unwrap(), "foobar");
    assert_eq!(base64_decode("cGFzc3dvcmQ=").unwrap(), "password");
    assert_eq!(base64_decode("w6k=").unwrap(), "é");
}

#[test]
fn decode_ignores_surrounding_whitespace() {
    assert_eq!(base64_decode("  cGFzc3dvcmQ=\n").unwrap(), "password");
    assert_eq!(base64_decode("\t\r\nZm9v \u{3000}").unwrap(), "foo");
    assert_eq!(base64_decode("   ").unwrap(), "");
}

#[test]
fn decode_ignores_incomplete_trailing_group() {
    assert_eq!(base64_decode("Zm9vYg").unwrap(), "foo");
    assert_eq!(base64_decode("Zm9").unwrap(), "");
}

#[test]
fn decode_counts_foreign_characters_as_zero() {
    // '*' is not in the alphabet and decodes as 'A' would.
    assert_eq!(base64_decode("Zm*v").unwrap(), base64_decode("ZmAv").unwrap());
    assert_eq!(base64_decode("QUJD").unwrap(), "ABC");
    assert_eq!(base64_decode("*UJD").unwrap(), "\u{1}BC");
}

#[test]
fn decode_rejects_bytes_that_are_not_utf8() {
    let e = base64_decode("/w==").unwrap_err();
    assert_eq!(e, "invalid utf-8 sequence of 1 bytes from index 0");
    let e2 = base64_decode("YWL/").unwrap_err();
    assert_eq!(e2, String::from_utf8(vec![b'a', b'b', 0xff]).unwrap_err().to_string());
}

#[test]
fn decode_reads_back_what_encode_wrote() {
    for s in ["", "x", "deck", "hunter2!", "päss wörd", "🦀 crab", "a'b\"c\\d", "line\nbreak"] {
        assert_eq!(base64_decode(&base64_encode(s)).unwrap(), s);
    }
}

#[test]
fn encode_output_is_plain_ascii() {
    let e = base64_encode("日本語のパスワード");
    assert!(e.chars().all(|c| c.is_ascii_alphanumeric() || c == '+' || c == '/' || c == '='));
    assert_eq!(e.len() % 4, 0);
}
