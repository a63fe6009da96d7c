use display_error_chain::{ChainedError, DisplayErrorChain, ErrorLike};

fn leaf(msg: &str) -> ChainedError {
    ChainedError::new(msg.to_string())
}

fn caused(msg: &str, cause: ChainedError) -> ChainedError {
    ChainedError::with_cause(msg.to_string(), cause)
}

#[test]
fn three_level_chain() {
    let top = caused("top level", caused("mid level", leaf("low level")));
    let formatted = DisplayErrorChain::new(&top).to_string();
    assert_eq!(formatted, "top level\nCaused by:\n  -> mid level\n  -> low level");
}

#[test]
fn single_cause() {
    let io = caused("Some I/O", leaf("wow"));
    let formatted = DisplayErrorChain::new(&io).to_string();
    assert_eq!("Some I/O\nCaused by:\n  -> wow", formatted);
}

#[test]
fn no_cause() {
    let no_cause = leaf("No cause");
    let formatted = DisplayErrorChain::new(&no_cause).to_string();
    assert_eq!("No cause", formatted);
}

#[test]
fn no_cause_is_own_description() {
    let e = leaf("plain failure");
    let formatted = DisplayErrorChain::new(&e).to_string();
    assert_eq!(formatted, e.describe());
    assert!(!formatted.contains("Caused by"));
    assert!(!formatted.ends_with('\n'));
}

#[test]
fn chain_lines_in_order() {
    let top = caused("a", caused("b", caused("c", caused("d", leaf("e")))));
    let formatted = DisplayErrorChain::new(&top).to_string();
    let lines: Vec<&str> = formatted.split('\n').collect();
    assert_eq!(lines, vec!["a", "Caused by:", "  -> b", "  -> c", "  -> d", "  -> e"]);
    assert_eq!(formatted.matches("Caused by:").count(), 1);
    assert_eq!(lines.iter().filter(|l| l.starts_with("  -> ")).count(), 4);
    assert!(!formatted.ends_with('\n'));
}

#[test]
fn rendering_twice_is_identical() {
    let top = caused("outer", caused("inner", leaf("root")));
    let chain = DisplayErrorChain::new(&top);
    let first = chain.to_string();
    let second = chain.to_string();
    assert_eq!(first, second);
    assert_eq!(first, DisplayErrorChain::new(&top).to_string());
}

#[test]
fn cause_line_holds_only_its_own_message() {
    let top = caused("outer", caused("middle", leaf("root")));
    let formatted = DisplayErrorChain::new(&top).to_string();
    let lines: Vec<&str> = formatted.lines().collect();
    assert_eq!(lines[2], "  -> middle");
    assert!(!lines[2].contains("root"));
}

#[test]
fn empty_messages() {
    let top = caused("", leaf(""));
    assert_eq!(DisplayErrorChain::new(&top).to_string(), "\nCaused by:\n  -> ");
    let bare = leaf("");
    assert_eq!(DisplayErrorChain::new(&bare).to_string(), "");
}

#[test]
fn messages_are_not_altered() {
    let top = caused("first\nsecond", leaf("deep -> cause"));
    assert_eq!(
        DisplayErrorChain::new(&top).to_string(),
        "first\nsecond\nCaused by:\n  -> deep -> cause"
    );
}

#[test]
fn chained_error_accessors() {
    let top = caused("top", leaf("bottom"));
    assert_eq!(top.describe(), "top");
    let below = top.cause().expect("a cause");
    assert_eq!(below.describe(), "bottom");
    assert!(below.cause().is_none());
}

#[test]
fn long_chain() {
    let mut e = leaf("level 0");
    for i in 1..200 {
        e = caused(&format!("level {}", i), e);
    }
    let formatted = DisplayErrorChain::new(&e).to_string();
    let lines: Vec<&str> = formatted.split('\n').collect();
    assert_eq!(lines.len(), 201);
    assert_eq!(lines[0], "level 199");
    assert_eq!(lines[1], "Caused by:");
    assert_eq!(lines[2], "  -> level 198");
    assert_eq!(lines[200], "  -> level 0");
}
