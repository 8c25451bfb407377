use squaremap_server::console::{bound_line, strip_ansi, LINE_LIMIT};

#[test]
fn escape_sequences_are_removed() {
    assert_eq!(strip_ansi("\u{1b}[32mready\u{1b}[0m in 5ms"), "ready in 5ms");
    assert_eq!(strip_ansi("plain"), "plain");
    assert_eq!(strip_ansi("a\u{1b}xb"), "ab");
    assert_eq!(strip_ansi("a\u{1b}"), "a");
    assert_eq!(strip_ansi("a\u{1b}[12;3"), "a");
}

#[test]
fn lines_are_bounded_at_character_boundaries() {
    let short = "x".repeat(10);
    assert_eq!(bound_line(short.clone()), short);
    let long = "y".repeat(LINE_LIMIT + 5);
    assert_eq!(bound_line(long).len(), LINE_LIMIT);
    let wide = format!("{}é", "z".repeat(LINE_LIMIT - 1));
    let bounded = bound_line(wide);
    assert_eq!(bounded.len(), LINE_LIMIT - 1);
    assert!(bounded.chars().all(|c| c == 'z'));
}
