use docbook_to_mdbook::render::{truncate, RenderState, MAX_WIDTH};

fn state() -> RenderState {
    RenderState::new()
}

#[test]
fn new_state_is_empty() {
    let s = state();
    assert!(s.lines.is_empty());
    assert_eq!(s.pending_text, "");
    assert!(!s.blank_owed);
    assert!(!s.last_nonblank);
    assert!(!s.marker_pending);
    assert_eq!(s.prefix_current, "");
    assert_eq!(s.prefix_continuation, "");
    assert_eq!(MAX_WIDTH, 80);
}

#[test]
fn write_line_trims_the_end_only() {
    let mut s = state();
    s.write_line("  text \t\n");
    assert_eq!(s.lines, vec!["  text"]);
    assert!(s.last_nonblank);
}

#[test]
fn blank_line_behind_a_blank_line_is_dropped() {
    let mut s = state();
    s.write_line("");
    assert!(s.lines.is_empty());
    s.write_line("a");
    s.write_line("");
    s.write_line("   ");
    s.write_line("");
    assert_eq!(s.lines, vec!["a", ""]);
    assert!(!s.last_nonblank);
}

#[test]
fn owed_blank_line_is_written_once() {
    let mut s = state();
    s.write_line("a");
    s.owe_blank();
    s.owe_blank();
    s.write_line("b");
    assert_eq!(s.lines, vec!["a", "", "b"]);
    assert!(!s.blank_owed);
    s.owe_blank();
    s.write_line("");
    s.owe_blank();
    s.write_line("c");
    assert_eq!(s.lines, vec!["a", "", "b", "", "c"]);
}

#[test]
fn owed_blank_line_at_the_start_is_dropped() {
    let mut s = state();
    s.owe_blank();
    s.settle_blank();
    assert!(s.lines.is_empty());
    assert!(!s.blank_owed);
}

#[test]
fn marker_is_used_by_the_first_line_only() {
    let mut s = state();
    let len = s.push_indent("-", false);
    assert_eq!(len, 0);
    assert_eq!(s.prefix_current, "- ");
    assert_eq!(s.prefix_continuation, "  ");
    assert!(s.marker_pending);
    s.write_line("one");
    assert!(!s.marker_pending);
    assert_eq!(s.prefix_current, "  ");
    s.write_line("two");
    assert_eq!(s.lines, vec!["- one", "  two"]);
    s.pop_indent(len);
    assert_eq!(s.prefix_current, "");
    assert_eq!(s.prefix_continuation, "");
}

#[test]
fn quoted_blocks_repeat_their_marker() {
    let mut s = state();
    let outer = s.push_indent("12.", false);
    s.write_line("item");
    let inner = s.push_indent(">", true);
    assert_eq!((outer, inner), (0, 4));
    assert_eq!(s.prefix_current, "    > ");
    assert_eq!(s.prefix_continuation, "    > ");
    s.write_line("quoted");
    s.write_line("");
    s.write_line("more");
    s.pop_indent(inner);
    s.write_line("back");
    s.pop_indent(outer);
    s.write_line("out");
    assert_eq!(
        s.lines,
        vec!["12. item", "    > quoted", "    >", "    > more", "    back", "out"]
    );
}

#[test]
fn push_indent_settles_an_owed_blank_line_first() {
    let mut s = state();
    s.write_line("a");
    s.owe_blank();
    s.push_indent("-", false);
    assert_eq!(s.lines, vec!["a", ""]);
    s.write_line("b");
    assert_eq!(s.lines, vec!["a", "", "- b"]);
}

#[test]
fn unused_marker_is_given_back() {
    let mut s = state();
    let outer = s.push_indent("-", false);
    let inner = s.push_indent("  :", false);
    assert_eq!(s.prefix_current, "-   : ");
    assert_eq!(s.prefix_continuation, "      ");
    s.pop_indent(inner);
    assert_eq!(s.prefix_current, "- ");
    assert_eq!(s.prefix_continuation, "  ");
    assert!(s.marker_pending);
    s.write_line("x");
    s.pop_indent(outer);
    assert_eq!(s.lines, vec!["- x"]);
}

#[test]
fn flush_wraps_behind_both_prefixes() {
    let mut s = state();
    s.push_indent("-", false);
    s.gather("  ");
    s.gather(&"abcdefghi ".repeat(12));
    s.flush_text(false);
    assert_eq!(
        s.lines,
        vec![
            "- abcdefghi abcdefghi abcdefghi abcdefghi abcdefghi abcdefghi abcdefghi",
            "  abcdefghi abcdefghi abcdefghi abcdefghi abcdefghi",
        ]
    );
    assert_eq!(s.pending_text, "");
    assert!(!s.marker_pending);
}

#[test]
fn flush_packs_lines_up_to_the_budget() {
    let mut s = state();
    s.gather(&format!("{} {} z", "a".repeat(40), "b".repeat(39)));
    s.flush_text(false);
    assert_eq!(s.lines, vec![format!("{} {}", "a".repeat(40), "b".repeat(39)), "z".to_string()]);
    let mut s = state();
    s.gather(&format!("{} {} z", "a".repeat(40), "b".repeat(40)));
    s.flush_text(false);
    assert_eq!(s.lines, vec!["a".repeat(40), format!("{} z", "b".repeat(40))]);
}

#[test]
fn flush_of_blank_text_writes_nothing() {
    let mut s = state();
    s.gather(" \n\t ");
    s.flush_text(false);
    assert!(s.lines.is_empty());
    assert_eq!(s.pending_text, "");
    s.flush_text(true);
    assert_eq!(s.lines, vec!["```", "```"]);
}

#[test]
fn flush_of_a_code_block_is_fenced() {
    let mut s = state();
    s.push_indent(">", true);
    s.gather("let x = 1;");
    s.flush_text(true);
    assert_eq!(s.lines, vec!["> ```", "> let x = 1;", "> ```"]);
}

#[test]
fn flush_settles_an_owed_blank_line_even_without_text() {
    let mut s = state();
    s.write_line("a");
    s.owe_blank();
    s.flush_text(false);
    assert_eq!(s.lines, vec!["a", ""]);
}

#[test]
fn truncate_cuts_to_a_number_of_characters() {
    assert_eq!(truncate(&"- > ".to_string(), 2), "- ");
    assert_eq!(truncate(&"abc".to_string(), 3), "abc");
    assert_eq!(truncate(&"abc".to_string(), 7), "abc");
    assert_eq!(truncate(&"abc".to_string(), 0), "");
    assert_eq!(truncate(&"äöü".to_string(), 2), "äö");
}

#[test]
fn consume_marker_without_a_marker_changes_nothing() {
    let mut s = state();
    s.push_indent("-", false);
    s.consume_marker();
    assert_eq!(s.prefix_current, "  ");
    s.prefix_current = "xx".to_string();
    s.consume_marker();
    assert_eq!(s.prefix_current, "xx");
}

#[test]
fn wrapped_lines_are_emitted_as_they_are() {
    let mut s = state();
    s.push_indent("-", false);
    s.emit_wrapped(&vec!["- one".to_string(), "  two  ".to_string()]);
    assert_eq!(s.lines, vec!["- one", "  two  "]);
    assert!(s.last_nonblank);
    assert!(!s.marker_pending);
    assert_eq!(s.prefix_current, "  ");
    s.emit_wrapped(&Vec::new());
    assert_eq!(s.lines, vec!["- one", "  two  "]);
}

#[test]
fn blank_wrapped_lines_are_normalized() {
    let mut s = state();
    s.emit_wrapped(&vec![String::new(), "a".to_string(), String::new(), String::new()]);
    assert_eq!(s.lines, vec!["a", ""]);
    assert!(!s.last_nonblank);
    s.emit_wrapped(&vec![String::new(), "b".to_string()]);
    assert_eq!(s.lines, vec!["a", "", "b"]);
    assert!(s.last_nonblank);
}
