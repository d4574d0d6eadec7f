use matrix_chatgpt::auth::AuthorizationSet;

fn owned(items: &[&str]) -> Vec<String> {
    items.iter().map(|s| s.to_string()).collect()
}

#[test]
fn unrestricted_set_permits_everyone() {
    let set = AuthorizationSet::unrestricted();
    assert!(set.is_open());
    assert!(set.permits("@alice:example"));
    assert!(set.permits(""));
}

#[test]
fn members_are_permitted_and_nobody_else() {
    let set = AuthorizationSet::from_members(owned(&["@alice:example", "@bob:example"]));
    assert!(!set.is_open());
    assert!(set.permits("@alice:example"));
    assert!(set.permits("@bob:example"));
    assert!(!set.permits("@carol:example"));
    assert!(!set.permits("@alice:example "));
}

#[test]
fn parse_splits_on_every_comma() {
    assert_eq!(
        AuthorizationSet::parse("@alice:example,@bob:example"),
        AuthorizationSet::from_members(owned(&["@alice:example", "@bob:example"]))
    );
    assert_eq!(
        AuthorizationSet::parse("@alice:example"),
        AuthorizationSet::from_members(owned(&["@alice:example"]))
    );
}

#[test]
fn parse_keeps_empty_pieces_and_blanks() {
    assert_eq!(AuthorizationSet::parse(""), AuthorizationSet::from_members(owned(&[""])));
    assert_eq!(AuthorizationSet::parse(","), AuthorizationSet::from_members(owned(&["", ""])));
    assert_eq!(AuthorizationSet::parse("a,"), AuthorizationSet::from_members(owned(&["a", ""])));
    assert_eq!(AuthorizationSet::parse(",a"), AuthorizationSet::from_members(owned(&["", "a"])));
    assert_eq!(
        AuthorizationSet::parse("a, b,, c"),
        AuthorizationSet::from_members(owned(&["a", " b", "", " c"]))
    );
}

#[test]
fn parse_agrees_with_split_on_text_beyond_ascii() {
    let list = "@zoë:example,@名前:example,,@x:example";
    let expected: Vec<String> = list.split(',').map(|s| s.to_string()).collect();
    assert_eq!(AuthorizationSet::parse(list), AuthorizationSet::from_members(expected));
}

#[test]
fn parsed_empty_text_restricts_everyone() {
    let set = AuthorizationSet::parse("");
    assert!(!set.is_open());
    assert!(!set.permits("@alice:example"));
    assert!(set.permits(""));
}
