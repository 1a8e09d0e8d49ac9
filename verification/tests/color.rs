use sv3g::color::holds_quote;
use sv3g::{CSSColor, ColorQuotes};

fn color(text: &str) -> CSSColor {
    CSSColor::new(text.to_string()).expect("a color without quotes")
}

#[test]
fn text_without_quotes_is_kept_unchanged() {
    for text in [
        "#fff",
        "#000000",
        "red",
        "rgb(255, 0, 0)",
        "hsl(120 100% 50% / 0.5)",
        "",
        " ",
        "  padded  ",
        "MiXeD",
        "it's",
        "a<b>&c;",
        "back\\slash",
        "tab\tand\nnewline",
        "čerstvě 🌈 色",
    ] {
        let made = CSSColor::new(text.to_string()).expect("no quote inside");
        assert_eq!(made.as_str(), text);
        assert_eq!(made.to_string(), text.to_string());
    }
}

#[test]
fn text_with_a_quote_is_refused() {
    for text in [
        "\"",
        "\"\"",
        "\"red",
        "red\"",
        "r\"ed",
        "\"red\"",
        "red\" onload=\"alert(1)",
        "\\\"",
        "🌈\"🌈",
        "色\"",
        "\"\u{301}",
        "a\u{0}\"",
    ] {
        assert!(matches!(CSSColor::new(text.to_string()), Err(ColorQuotes)));
    }
}

#[test]
fn a_quoted_word_in_a_sentence_is_refused() {
    let made = CSSColor::new("He said \"hi\"".to_string());
    assert!(matches!(made, Err(ColorQuotes)));
}

#[test]
fn quotes_of_other_kinds_are_no_quotes() {
    for text in ["'", "`", "“red”", "«red»", "＂", "&quot;"] {
        assert!(CSSColor::new(text.to_string()).is_ok());
    }
}

#[test]
fn the_error_says_what_is_wrong() {
    let refused = CSSColor::new("\"".to_string()).expect_err("a quote");
    assert_eq!(
        refused.to_string(),
        "CSS colors must not contain quotes".to_string()
    );
    assert_eq!(format!("{:?}", refused), "ColorQuotes");
}

#[test]
fn colors_are_equal_when_their_texts_are() {
    assert_eq!(color("#fff"), color("#fff"));
    assert_ne!(color("#fff"), color("#FFF"));
    assert_ne!(color("#fff"), color("#fff "));
    assert_eq!(color(""), color(""));
}

#[test]
fn a_copy_has_the_same_text() {
    let first = color("rgb(1, 2, 3)");
    let second = first.clone();
    assert_eq!(first, second);
    assert_eq!(second.as_str(), "rgb(1, 2, 3)");
}

#[test]
fn a_color_shows_its_text_when_debugged() {
    assert_eq!(format!("{:?}", color("#abc")), "CSSColor(\"#abc\")");
}

#[test]
fn a_quote_is_found_wherever_it_stands() {
    assert!(!holds_quote(""));
    assert!(!holds_quote("no quote here"));
    assert!(holds_quote("\""));
    assert!(holds_quote("\"at the start"));
    assert!(holds_quote("in the \" middle"));
    assert!(holds_quote("at the end\""));
    assert!(holds_quote("é\"é"));
    assert!(!holds_quote("''"));
}
