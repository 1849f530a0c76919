use doc_manager::keys::companion_key;
use doc_manager::keys::has_prefix;
use doc_manager::keys::is_companion_key;
use doc_manager::keys::is_companion_of;
use doc_manager::keys::owner_of;
use doc_manager::keys::str_eq;

#[test]
fn companion_key_joins_id_and_name() {
    assert_eq!(companion_key("abc", "img.png"), "abc_img.png");
    assert_eq!(companion_key("", "file"), "_file");
    assert_eq!(companion_key("id", ""), "id_");
}

#[test]
fn companion_key_detection() {
    assert!(is_companion_key("abc_img.png"));
    assert!(is_companion_key("_"));
    assert!(is_companion_key(&companion_key("doc", "a")));
    assert!(!is_companion_key("abc"));
    assert!(!is_companion_key(""));
    assert!(!is_companion_key("abc-img.png"));
}

#[test]
fn owner_of_takes_prefix_before_first_separator() {
    assert_eq!(owner_of("abc_img.png"), "abc");
    assert_eq!(owner_of("abc_img_2.png"), "abc");
    assert_eq!(owner_of("abc"), "abc");
    assert_eq!(owner_of(""), "");
    assert_eq!(owner_of("_tail"), "");
    assert_eq!(owner_of(&companion_key("doc-1", "f.bin")), "doc-1");
}

#[test]
fn companion_of_checks_id_prefix() {
    assert!(is_companion_of("abc_img.png", "abc"));
    assert!(!is_companion_of("abc_img.png", "ab"));
    assert!(!is_companion_of("abcd_img.png", "abc"));
    assert!(!is_companion_of("abc", "abc"));
}

#[test]
fn prefix_and_equality_helpers() {
    assert!(has_prefix("abc_img", "abc_"));
    assert!(has_prefix("abc", ""));
    assert!(!has_prefix("ab", "abc"));
    assert!(!has_prefix("abd", "abc"));
    assert!(str_eq("héllo", "héllo"));
    assert!(!str_eq("héllo", "hello"));
    assert!(!str_eq("a", "ab"));
}
