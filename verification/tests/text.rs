use sv3g::text::{eq_ignore_ascii_case, same_text};

#[test]
fn texts_compare_without_regard_to_ascii_case() {
    assert!(eq_ignore_ascii_case("", ""));
    assert!(eq_ignore_ascii_case("abc", "ABC"));
    assert!(eq_ignore_ascii_case("AbC", "aBc"));
    assert!(eq_ignore_ascii_case("a-1_ é", "A-1_ é"));
    assert!(!eq_ignore_ascii_case("abc", "abd"));
    assert!(!eq_ignore_ascii_case("abc", "ab"));
    assert!(!eq_ignore_ascii_case("ab", "abc"));
    assert!(!eq_ignore_ascii_case("", "a"));
    assert!(!eq_ignore_ascii_case("é", "É"));
    assert!(!eq_ignore_ascii_case("@", "`"));
    assert!(!eq_ignore_ascii_case("[", "{"));
    assert!(eq_ignore_ascii_case("Z", "z"));
    assert!(eq_ignore_ascii_case("A", "a"));
}

#[test]
fn texts_compare_character_for_character() {
    assert!(same_text("", ""));
    assert!(same_text("help", "help"));
    assert!(same_text("🌈", "🌈"));
    assert!(!same_text("help", "HELP"));
    assert!(!same_text("help", "hel"));
    assert!(!same_text("hel", "help"));
    assert!(!same_text("ℹ️", "ℹ"));
    assert!(!same_text("a", "b"));
}
