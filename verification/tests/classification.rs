use doc_manager::classify::classify;
use doc_manager::classify::Classification;

#[test]
fn valid_utf8_is_text_and_round_trips() {
    match classify("hello".as_bytes()) {
        Classification::Text(s) => assert_eq!(s, "hello"),
        Classification::Binary => panic!("valid text classified as binary"),
    }
    match classify("grüße 漢字".as_bytes()) {
        Classification::Text(s) => assert_eq!(s.as_bytes(), "grüße 漢字".as_bytes()),
        Classification::Binary => panic!("valid text classified as binary"),
    }
}

#[test]
fn empty_payload_is_empty_text() {
    match classify(&[]) {
        Classification::Text(s) => assert_eq!(s, ""),
        Classification::Binary => panic!("empty payload classified as binary"),
    }
}

#[test]
fn invalid_utf8_is_binary() {
    assert!(matches!(classify(&[0xFF, 0xFE, 0x00]), Classification::Binary));
    assert!(matches!(classify(&[0xC0, 0x80]), Classification::Binary));
    assert!(matches!(classify(&[0xE2, 0x82]), Classification::Binary));
}

#[test]
fn classification_is_deterministic() {
    let payload = [0x68, 0x69];
    let first = match classify(&payload) {
        Classification::Text(s) => Some(s),
        Classification::Binary => None,
    };
    let second = match classify(&payload) {
        Classification::Text(s) => Some(s),
        Classification::Binary => None,
    };
    assert_eq!(first, second);
    assert_eq!(first, Some(String::from("hi")));
}
