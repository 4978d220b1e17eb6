use spider::ident::{accept_id, gen_unique_id, is_legacy_format, APP_ID_LENGTH};

#[test]
fn drawn_identifiers_have_ten_lowercase_letters() {
    for _ in 0..50 {
        let id = gen_unique_id(&Vec::new()).unwrap();
        assert_eq!(id.len(), APP_ID_LENGTH);
        assert_eq!(id.chars().count(), 10);
        assert!(id.chars().all(|c| ('a'..='z').contains(&c)));
    }
}

#[test]
fn drawn_identifiers_are_fresh_and_distinct() {
    let mut known = vec!["abcdefghij".to_string(), "legacy".to_string()];
    let mut drawn: Vec<String> = Vec::new();
    for _ in 0..200 {
        let id = gen_unique_id(&known).unwrap();
        assert!(!known.contains(&id));
        assert!(!drawn.contains(&id));
        known.push(id.clone());
        drawn.push(id);
    }
    assert_eq!(drawn.len(), 200);
}

#[test]
fn known_identifiers_are_not_accepted() {
    let known = vec!["abcdefghij".to_string()];
    assert_eq!(accept_id(&known, "abcdefghij".to_string()), None);
    assert_eq!(accept_id(&known, "abcdefghik".to_string()), Some("abcdefghik".to_string()));
    assert_eq!(accept_id(&Vec::new(), "abcdefghij".to_string()), Some("abcdefghij".to_string()));
}

#[test]
fn older_formats_are_told_by_their_length() {
    assert!(!is_legacy_format("abcdefghij"));
    assert!(is_legacy_format("abcdefghi"));
    assert!(is_legacy_format("abcdefghijk"));
    assert!(is_legacy_format(""));
    assert!(is_legacy_format("123e4567-e89b-12d3-a456-426614174000"));
    assert!(is_legacy_format("My Web Application"));
    assert!(!is_legacy_format("0123456789"));
    assert!(!is_legacy_format("éabcdefgh"));
}

#[test]
fn first_draw_is_returned_where_nothing_can_collide() {
    let known = vec![
        "My Web Application".to_string(),
        "123e4567-e89b-12d3-a456-426614174000".to_string(),
        "ABCDEFGHIJ".to_string(),
        "abcdefghi".to_string(),
        "abcdefghi1".to_string(),
    ];
    for _ in 0..20 {
        let id = gen_unique_id(&known).unwrap();
        assert_eq!(id.len(), 10);
        assert!(!known.contains(&id));
    }
    assert!(gen_unique_id(&Vec::new()).is_some());
}
