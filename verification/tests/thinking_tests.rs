use brain::text::{blank, chars_of, find, is_whitespace, same_text, trim, trim_bounds};
use brain::thinking::{extract_reasoning, get_thinking, strip_reasoning};

#[test]
fn a_closed_segment_splits_into_reasoning_and_answer() {
    let text = "<think>R</think>A";
    assert_eq!(strip_reasoning(text), "A");
    assert_eq!(extract_reasoning(text), Some("R".to_string()));
    assert_eq!(get_thinking(text, true), Some("A".to_string()));
    assert_eq!(get_thinking(text, false), Some("R".to_string()));
}

#[test]
fn an_open_segment_is_no_segment() {
    let text = "<think>R";
    assert_eq!(strip_reasoning(text), "<think>R");
    assert_eq!(extract_reasoning(text), None);
    assert_eq!(get_thinking(text, true), Some("<think>R".to_string()));
    assert_eq!(get_thinking(text, false), None);
}

#[test]
fn a_text_without_markers_is_kept() {
    assert_eq!(strip_reasoning("  plain answer "), "  plain answer ");
    assert_eq!(extract_reasoning("plain answer"), None);
    assert_eq!(strip_reasoning(""), "");
}

#[test]
fn what_is_kept_loses_the_white_space_around_it() {
    let text = " before <think>\nwhy\n</think>\n\nThe answer.\n";
    assert_eq!(strip_reasoning(text), "before \n\nThe answer.");
    assert_eq!(extract_reasoning(text), Some("\nwhy\n".to_string()));
}

#[test]
fn the_first_end_marker_after_the_start_marker_closes() {
    let text = "</think>x<think>a</think>b</think>c";
    assert_eq!(extract_reasoning(text), Some("a".to_string()));
    assert_eq!(strip_reasoning(text), "</think>xb</think>c");
}

#[test]
fn an_end_marker_before_the_start_marker_closes_nothing() {
    let text = "a</think>b<think>c";
    assert_eq!(strip_reasoning(text), text);
    assert_eq!(extract_reasoning(text), None);
}

#[test]
fn markers_work_in_text_beyond_ascii() {
    let text = "<think>考え中</think>答えは３です。";
    assert_eq!(strip_reasoning(text), "答えは３です。");
    assert_eq!(extract_reasoning(text), Some("考え中".to_string()));
}

#[test]
fn white_space_is_what_the_standard_library_calls_so() {
    let mut code: u32 = 0;
    while code <= 0x10FFFF {
        if let Some(c) = char::from_u32(code) {
            assert_eq!(is_whitespace(c), c.is_whitespace(), "code point {:#x}", code);
        }
        code += 1;
    }
}

#[test]
fn blank_texts_hold_white_space_only() {
    assert!(blank(""));
    assert!(blank(" \t\r\n\u{3000}"));
    assert!(!blank(" x "));
}

#[test]
fn trim_bounds_agree_with_trim() {
    for text in ["", "   ", "a", "  a b  ", "\n\u{a0}x\u{2003}", "x  "] {
        let chars = chars_of(text);
        let (lo, hi) = trim_bounds(&chars);
        let got: String = chars[lo..hi].iter().collect();
        assert_eq!(got, text.trim());
    }
}

#[test]
fn find_gives_the_first_place_from_the_start_index() {
    let text = chars_of("abcabc");
    let pattern = chars_of("bc");
    assert_eq!(find(&text, &pattern, 0), Some(1));
    assert_eq!(find(&text, &pattern, 2), Some(4));
    assert_eq!(find(&text, &pattern, 5), None);
    assert_eq!(find(&text, &chars_of(""), 6), Some(6));
    assert_eq!(find(&text, &chars_of(""), 7), None);
    assert_eq!(find(&text, &chars_of("abcabcd"), 0), None);
}

#[test]
fn texts_are_the_same_where_their_characters_are() {
    assert!(same_text("", ""));
    assert!(same_text("tool", "tool"));
    assert!(same_text("答え", "答え"));
    assert!(!same_text("tool", "Tool"));
    assert!(!same_text("tool", "tools"));
    assert!(!same_text("tools", "tool"));
    assert!(!same_text("", "x"));
}

#[test]
fn trim_takes_the_white_space_away() {
    assert_eq!(trim("  a b \n"), "a b");
    assert_eq!(trim(""), "");
    assert_eq!(trim(" \t "), "");
}
