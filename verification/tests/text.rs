use matrix_chatgpt::text::{contains_text, same_text};

#[test]
fn same_text_compares_character_by_character() {
    assert!(same_text("", ""));
    assert!(same_text("@bot:example", "@bot:example"));
    assert!(!same_text("@bot:example", "@bot:exampl"));
    assert!(!same_text("@bot:example", "@bot:examplf"));
    assert!(!same_text("@Bot:example", "@bot:example"));
    assert!(same_text("zoë", "zoë"));
    assert!(!same_text("zoë", "zoe"));
}

#[test]
fn contains_text_finds_exact_members_only() {
    let items = vec!["a".to_string(), "bc".to_string()];
    assert!(contains_text(&items, "a"));
    assert!(contains_text(&items, "bc"));
    assert!(!contains_text(&items, "b"));
    assert!(!contains_text(&items, ""));
    assert!(!contains_text(&Vec::new(), "a"));
}
