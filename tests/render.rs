use leftysay::render::{renderer_flags, size_arg, ChafaColors, ChafaFormat, Invocation, Step};

#[test]
fn fallback_retries_once_when_both_auto() {
    let mut inv = Invocation::new(ChafaFormat::Auto, ChafaColors::Auto);
    assert_eq!(inv.on_outcome(false), Step::Retry(ChafaFormat::Unicode, ChafaColors::Truecolor));
    assert_eq!(inv.format, ChafaFormat::Unicode);
    assert_eq!(inv.colors, ChafaColors::Truecolor);
    assert_eq!(inv.on_outcome(false), Step::Fail);
}

#[test]
fn fallback_no_retry_when_neither_auto() {
    let mut inv = Invocation::new(ChafaFormat::Kitty, ChafaColors::C256);
    assert_eq!(inv.on_outcome(false), Step::Fail);
    assert!(!inv.retried);
}

#[test]
fn fallback_retry_when_one_auto() {
    let mut inv = Invocation::new(ChafaFormat::Sixel, ChafaColors::Auto);
    assert_eq!(inv.on_outcome(false), Step::Retry(ChafaFormat::Sixel, ChafaColors::Truecolor));
    assert_eq!(inv.on_outcome(true), Step::Accept);
    let mut inv = Invocation::new(ChafaFormat::Auto, ChafaColors::C16);
    assert_eq!(inv.on_outcome(false), Step::Retry(ChafaFormat::Unicode, ChafaColors::C16));
}

#[test]
fn success_is_accepted() {
    let mut inv = Invocation::new(ChafaFormat::Auto, ChafaColors::Auto);
    assert_eq!(inv.on_outcome(true), Step::Accept);
    assert!(!inv.retried);
}

#[test]
fn format_and_colors_words() {
    assert_eq!(ChafaFormat::Auto.as_arg(), "auto");
    assert_eq!(ChafaFormat::Unicode.as_arg(), "symbols");
    assert_eq!(ChafaFormat::Kitty.as_arg(), "kitty");
    assert_eq!(ChafaFormat::Iterm2.as_arg(), "iterm");
    assert_eq!(ChafaFormat::Sixel.as_arg(), "sixels");
    assert_eq!(ChafaColors::Auto.as_arg(), "auto");
    assert_eq!(ChafaColors::Truecolor.as_arg(), "full");
    assert_eq!(ChafaColors::C256.as_arg(), "256");
    assert_eq!(ChafaColors::C16.as_arg(), "16");
}

#[test]
fn size_argument_is_decimal() {
    assert_eq!(size_arg(80, 24), "80x24");
    assert_eq!(size_arg(0, 7), "0x7");
    assert_eq!(size_arg(100, 10), "100x10");
    assert_eq!(size_arg(usize::MAX, 1), format!("{}x1", usize::MAX));
}

#[test]
fn renderer_flags_in_order() {
    assert_eq!(
        renderer_flags(40, 10, ChafaFormat::Kitty, ChafaColors::C256, false),
        vec!["--format", "kitty", "--colors", "256", "--size", "40x10"]
    );
    assert_eq!(
        renderer_flags(1, 2, ChafaFormat::Auto, ChafaColors::Auto, true),
        vec!["--format", "auto", "--colors", "auto", "--size", "1x2", "--animate"]
    );
}
