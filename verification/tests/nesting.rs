use matrix_chatgpt::nesting::{within_nesting, MAX_NESTING};

fn arrays(levels: usize) -> String {
    format!("{}{}", "[".repeat(levels), "]".repeat(levels))
}

#[test]
fn deepest_nesting_is_sixty_four() {
    assert_eq!(MAX_NESTING, 64);
    assert!(within_nesting(&arrays(64)));
    assert!(!within_nesting(&arrays(65)));
}

#[test]
fn text_without_objects_or_arrays_does_not_nest() {
    assert!(within_nesting(""));
    assert!(within_nesting("42"));
    assert!(within_nesting("\"hello\""));
}

#[test]
fn objects_and_arrays_count_alike() {
    let mixed = format!("{}{}", "{\"a\":[".repeat(32), "]}".repeat(32));
    assert!(within_nesting(&mixed));
    let deeper = format!("{}{}", "{\"a\":[".repeat(33), "]}".repeat(33));
    assert!(!within_nesting(&deeper));
}

#[test]
fn what_has_been_closed_no_longer_counts() {
    let side_by_side = format!("[{}]", vec![arrays(63); 10].join(","));
    assert!(within_nesting(&side_by_side));
    let one_too_deep = format!("[{},{}]", arrays(63), arrays(64));
    assert!(!within_nesting(&one_too_deep));
}

#[test]
fn braces_and_brackets_inside_strings_are_left_aside() {
    let text = format!("[\"{}\"]", "[{".repeat(500));
    assert!(within_nesting(&text));
}

#[test]
fn escaped_quote_does_not_end_a_string() {
    let inside = format!("[\"a\\\"{}\"]", "[".repeat(500));
    assert!(within_nesting(&inside));
    // Here the backslash itself is escaped, so the quote ends the string
    // and the brackets after it count.
    let outside = format!("[\"a\\\\\",{}", "[".repeat(500));
    assert!(!within_nesting(&outside));
}

#[test]
fn text_that_is_never_closed_is_measured_all_the_same() {
    assert!(within_nesting(&"{".repeat(64)));
    assert!(!within_nesting(&"{".repeat(65)));
    assert!(within_nesting(&"}".repeat(1000)));
    assert!(within_nesting(&format!("{}{}", "}".repeat(10), arrays(64))));
}

#[test]
fn characters_beyond_ascii_are_read_one_by_one() {
    let text = format!("{{\"ключ\":\"値 [ {{\",\"b\":{}}}", arrays(63));
    assert!(within_nesting(&text));
    let deeper = format!("{{\"ключ\":\"値 [ {{\",\"b\":{}}}", arrays(64));
    assert!(!within_nesting(&deeper));
}
