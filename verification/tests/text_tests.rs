use codex_session_manager::role::MessageRole;
use codex_session_manager::text::{is_blank, soft_wrap_text, truncate_with_ellipsis};
use codex_session_manager::title::derive_title_candidate;

#[test]
fn soft_wrap_inserts_break_after_separators() {
    assert_eq!(
        soft_wrap_text("/home/me/my_project-x"),
        "/\u{200b}home/\u{200b}me/\u{200b}my_\u{200b}project-\u{200b}x"
    );
    assert_eq!(soft_wrap_text("a\\b<c>d"), "a\\\u{200b}b<\u{200b}c>\u{200b}d");
}

#[test]
fn soft_wrap_leaves_plain_text_alone() {
    assert_eq!(soft_wrap_text("plain words"), "plain words");
    assert_eq!(soft_wrap_text(""), "");
}

#[test]
fn soft_wrap_only_inserts_zero_width_spaces() {
    let input = "C:\\Users\\dev\\src/lib-core_<x>";
    let wrapped = soft_wrap_text(input);
    let stripped: String = wrapped.chars().filter(|c| *c != '\u{200b}').collect();
    assert_eq!(stripped, input);
    assert_eq!(wrapped.chars().count(), input.chars().count() + 8);
}

#[test]
fn truncate_keeps_short_text() {
    assert_eq!(truncate_with_ellipsis("hello", 5), "hello");
    assert_eq!(truncate_with_ellipsis("hello", 80), "hello");
    assert_eq!(truncate_with_ellipsis("", 0), "");
}

#[test]
fn truncate_cuts_long_text_with_ellipsis() {
    assert_eq!(truncate_with_ellipsis("hello world", 5), "hell…");
    assert_eq!(truncate_with_ellipsis("hello", 1), "…");
    assert_eq!(truncate_with_ellipsis("hello", 0), "…");
    let cut = truncate_with_ellipsis(&"é".repeat(700), 600);
    assert_eq!(cut.chars().count(), 600);
    assert!(cut.ends_with('…'));
}

#[test]
fn blank_means_only_white_space() {
    assert!(is_blank(""));
    assert!(is_blank(" \t\n\u{3000}\u{a0}"));
    assert!(!is_blank("  x "));
}

#[test]
fn title_from_first_usable_line() {
    assert_eq!(
        derive_title_candidate("\n  <image>\n```rust\n  Fix   the\tparser  bug \nmore"),
        Some("Fix the parser bug".to_string())
    );
    assert_eq!(derive_title_candidate("![shot](a.png)\nsecond line"), Some("second line".to_string()));
}

#[test]
fn title_refuses_blank_and_injected_context() {
    assert_eq!(derive_title_candidate("   \n\t"), None);
    assert_eq!(derive_title_candidate("# AGENTS.md instructions for /repo\nhello"), None);
    assert_eq!(derive_title_candidate("<environment_context>\n<cwd>/x</cwd>"), None);
    assert_eq!(derive_title_candidate("<image>\n</image>\n```"), None);
}

#[test]
fn title_is_cut_to_eighty_characters() {
    let long = "word ".repeat(40);
    let title = derive_title_candidate(&long).unwrap();
    assert_eq!(title.chars().count(), 80);
    assert!(title.ends_with('…'));
    assert!(title.starts_with("word word"));
}

#[test]
fn role_names_labels_and_titles() {
    assert_eq!(MessageRole::from_str("user"), MessageRole::User);
    assert_eq!(MessageRole::from_str("assistant"), MessageRole::Assistant);
    assert_eq!(MessageRole::from_str("system"), MessageRole::System);
    assert_eq!(MessageRole::from_str("tool"), MessageRole::Tool);
    assert_eq!(MessageRole::from_str("User"), MessageRole::Other);
    assert_eq!(MessageRole::from_str("other"), MessageRole::Other);
    assert_eq!(MessageRole::Assistant.label(), "Codex");
    assert_eq!(MessageRole::User.label(), "User");
    assert_eq!(MessageRole::Tool.section_title(), "Tool event");
    assert_eq!(MessageRole::System.section_title(), "System context");
    assert_eq!(MessageRole::Other.section_title(), "Message");
    assert_eq!(MessageRole::User.color(), 0x2c6e49);
    assert_eq!(MessageRole::Other.color(), 0x444444);
}
