use leftysay::bubble::{frame_bubble, pad_line, render_bubble};

#[test]
fn bubble_renders_multiple_lines() {
    let lines = render_bubble("hello world from leftysay", 40);
    assert!(lines.len() >= 3);
    assert!(lines.first().unwrap().contains('_'));
    assert!(lines.last().unwrap().contains('-'));
}

#[test]
fn bubble_borders_are_underscores_and_dashes() {
    let lines = render_bubble("hello world from leftysay", 40);
    let first = lines.first().unwrap();
    let last = lines.last().unwrap();
    assert!(first.starts_with(' '));
    assert!(first[1..].chars().all(|c| c == '_'));
    assert!(last.starts_with(' '));
    assert!(last[1..].chars().all(|c| c == '-'));
}

#[test]
fn bubble_single_line_uses_angle_brackets() {
    let lines = render_bubble("hi", 40);
    assert_eq!(lines, vec![" ____".to_string(), "< hi >".to_string(), " ----".to_string()]);
}

#[test]
fn bubble_wraps_on_narrow_width() {
    let lines = render_bubble("hello world from leftysay", 20);
    assert_eq!(
        lines,
        vec![
            " __________________".to_string(),
            "/ hello world from \\".to_string(),
            "\\ leftysay         /".to_string(),
            " ------------------".to_string(),
        ]
    );
}

#[test]
fn bubble_narrow_terminal_returns_message() {
    assert_eq!(render_bubble("hello world from leftysay", 14), vec!["hello world from leftysay".to_string()]);
    assert_eq!(render_bubble("  spaced  ", 3), vec!["  spaced  ".to_string()]);
    assert_eq!(render_bubble("x", 0), vec!["x".to_string()]);
}

#[test]
fn bubble_width_is_capped() {
    let text = "word ".repeat(40);
    let lines = render_bubble(&text, 200);
    for line in &lines {
        assert!(line.len() <= 64);
    }
    assert_eq!(lines[0].len(), lines[1].len() - 1);
}

#[test]
fn frame_three_lines_uses_bars_in_the_middle() {
    let wrapped = vec!["one".to_string(), "three".to_string(), "x".to_string()];
    let lines = frame_bubble(&wrapped);
    assert_eq!(
        lines,
        vec![
            " _______".to_string(),
            "/ one   \\".to_string(),
            "| three |".to_string(),
            "\\ x     /".to_string(),
            " -------".to_string(),
        ]
    );
}

#[test]
fn frame_nothing_gives_nothing() {
    assert!(frame_bubble(&Vec::new()).is_empty());
}

#[test]
fn pad_line_pads_to_width() {
    assert_eq!(pad_line("ab", 5), "ab   ");
    assert_eq!(pad_line("abcdef", 3), "abcdef");
    assert_eq!(pad_line("", 0), "");
    assert_eq!(pad_line("é", 3), "é ");
}
