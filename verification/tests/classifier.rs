use devkit::classify::analyze_file_complexity;
use devkit::classify::classify_bytes;

#[test]
fn single_line_comment() {
    let r = analyze_file_complexity("// hello\n");
    assert_eq!(r.total, 1);
    assert_eq!(r.code, 0);
    assert_eq!(r.comment, 1);
    assert_eq!(r.blank, 0);
}

#[test]
fn block_comment_spanning_lines() {
    let r = analyze_file_complexity("/* start\nmiddle\nend */\ncode();\n");
    assert_eq!(r.total, 4);
    assert_eq!(r.comment, 3);
    assert_eq!(r.code, 1);
    assert_eq!(r.blank, 0);
}

#[test]
fn blank_precedence_inside_block_comment() {
    let r = analyze_file_complexity("/* start\n   \nend */\ncode();\n");
    assert_eq!(r.total, 4);
    assert_eq!(r.comment, 2);
    assert_eq!(r.blank, 1);
    assert_eq!(r.code, 1);
}

#[test]
fn same_line_open_and_close() {
    let r = analyze_file_complexity("/* x */\n");
    assert_eq!(r.comment, 1);
    let r2 = analyze_file_complexity("/* x */\ncode();\n");
    assert_eq!(r2.comment, 1);
    assert_eq!(r2.code, 1);
    assert_eq!(r2.blank, 0);
}

#[test]
fn empty_file_all_zero() {
    let r = analyze_file_complexity("");
    assert_eq!(r.total, 0);
    assert_eq!(r.code, 0);
    assert_eq!(r.comment, 0);
    assert_eq!(r.blank, 0);
}

#[test]
fn conservation_on_mixed_input() {
    let text = "fn main() {\n    // a comment\n\n    let x = 1; /* not counted as comment */\n}\n\n/* tail\n";
    let r = analyze_file_complexity(text);
    assert_eq!(r.total, r.code + r.comment + r.blank);
    assert_eq!(r.total, 7);
}

#[test]
fn carriage_returns_are_trimmed() {
    let r = analyze_file_complexity("code();\r\n\r\n// c\r\n");
    assert_eq!(r.total, 3);
    assert_eq!(r.code, 1);
    assert_eq!(r.blank, 1);
    assert_eq!(r.comment, 1);
}

#[test]
fn unterminated_block_comment_absorbed() {
    let r = analyze_file_complexity("/* open\nrest of file\n");
    assert_eq!(r.total, 2);
    assert_eq!(r.comment, 2);
}

#[test]
fn no_trailing_newline_counts_final_line() {
    let r = analyze_file_complexity("code()");
    assert_eq!(r.total, 1);
    assert_eq!(r.code, 1);
}

#[test]
fn indented_comment_markers_recognized() {
    let r = analyze_file_complexity("    // indented\n\t/* also */\n");
    assert_eq!(r.comment, 2);
    assert_eq!(r.code, 0);
}

#[test]
fn close_marker_on_code_line_is_ignored() {
    // only a trimmed line that starts with the open marker changes state
    let r = analyze_file_complexity("let s = 1; /* trailing\nstill code */\n");
    assert_eq!(r.code, 2);
    assert_eq!(r.comment, 0);
}

#[test]
fn one_line_open_and_close_does_not_open_state() {
    let r = analyze_file_complexity("/*/\nafter\n");
    // the close marker overlaps the open one, so the state stays open only
    // if no close is present; `/*/` does contain one
    assert_eq!(r.comment, 1);
    assert_eq!(r.code, 1);
}

#[test]
fn classify_bytes_matches_str_front_end() {
    let a = classify_bytes("x\n// y\n".as_bytes());
    let b = analyze_file_complexity("x\n// y\n");
    assert_eq!(a, b);
}
