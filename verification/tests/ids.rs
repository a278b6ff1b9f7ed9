use launcher::ids::Uuid;

#[test]
fn uuid_text_forms_round_trip() {
    let text = "67e55044-10b1-426f-9247-bb680e5fe0c8";
    let u = Uuid::parse_str(text).unwrap();
    assert_eq!(u.to_hyphenated_string(), text);
    assert_eq!(u.to_simple_string(), "67e5504410b1426f9247bb680e5fe0c8");
    assert_eq!(Uuid::parse_str("67e5504410b1426f9247bb680e5fe0c8"), Some(u));
    assert_eq!(Uuid::parse_str("67E55044-10B1-426F-9247-BB680E5FE0C8"), Some(u));
    assert!(Uuid::parse_str("not-a-uuid").is_none());
    assert_eq!(u.as_bytes()[0], 0x67);
    assert_eq!(Uuid::from_bytes(*u.as_bytes()), u);
}
