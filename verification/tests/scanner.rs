use devkit::complexity::bar_widths;
use devkit::complexity::has_recognized_extension;
use devkit::complexity::is_hidden;
use devkit::complexity::percent_of;
use devkit::complexity::ComplexityAnalyzer;
use devkit::complexity::ComplexityStats;
use devkit::complexity::ScanEntry;

fn entry(path: &[&str], is_file: bool, content: Option<&str>) -> ScanEntry {
    ScanEntry {
        segments: path.iter().map(|s| s.as_bytes().to_vec()).collect(),
        is_file,
        content: content.map(|c| c.as_bytes().to_vec()),
    }
}

#[test]
fn aggregate_sums_per_file_fields() {
    let entries = vec![
        entry(&["src", "main.rs"], true, Some("code();\n// c\n\n")),
        entry(&["lib.py"], true, Some("x = 1\n")),
    ];
    let stats = ComplexityAnalyzer::new().analyze(&entries);
    assert_eq!(stats.file_count, 2);
    assert_eq!(stats.total_lines, 4);
    assert_eq!(stats.code_lines, 2);
    assert_eq!(stats.comment_lines, 1);
    assert_eq!(stats.blank_lines, 1);
    assert_eq!(
        stats.total_lines,
        stats.code_lines + stats.comment_lines + stats.blank_lines
    );
}

#[test]
fn scanning_twice_yields_identical_aggregates() {
    let entries = vec![
        entry(&["a.rs"], true, Some("one();\n")),
        entry(&["b", "c.java"], true, Some("// j\n")),
        entry(&["d.txt"], true, Some("ignored\n")),
    ];
    let analyzer = ComplexityAnalyzer::new();
    let first = analyzer.analyze(&entries);
    let second = analyzer.analyze(&entries);
    assert_eq!(first, second);
}

#[test]
fn file_inside_hidden_directory_never_counted() {
    let entries = vec![
        entry(&[".hidden", "a.rs"], true, Some("code();\n")),
        entry(&["seen.rs"], true, Some("code();\n")),
    ];
    let stats = ComplexityAnalyzer::new().analyze(&entries);
    assert_eq!(stats.file_count, 1);
    assert_eq!(stats.total_lines, 1);
}

#[test]
fn hidden_file_itself_never_counted() {
    let entries = vec![entry(&["src", ".secret.rs"], true, Some("code();\n"))];
    let stats = ComplexityAnalyzer::new().analyze(&entries);
    assert_eq!(stats.file_count, 0);
}

#[test]
fn unrecognized_extension_never_counted() {
    let entries = vec![
        entry(&["notes.txt"], true, Some("text\n")),
        entry(&["noext"], true, Some("text\n")),
        entry(&["trailing."], true, Some("text\n")),
    ];
    let stats = ComplexityAnalyzer::new().analyze(&entries);
    assert_eq!(stats.file_count, 0);
    assert_eq!(stats.total_lines, 0);
}

#[test]
fn unreadable_file_skipped_silently() {
    let entries = vec![
        entry(&["bad.rs"], true, None),
        entry(&["good.rs"], true, Some("ok();\n")),
    ];
    let stats = ComplexityAnalyzer::new().analyze(&entries);
    assert_eq!(stats.file_count, 1);
    assert_eq!(stats.total_lines, 1);
}

#[test]
fn directories_are_not_classified() {
    let entries = vec![entry(&["dir.rs"], false, None)];
    let stats = ComplexityAnalyzer::new().analyze(&entries);
    assert_eq!(stats.file_count, 0);
}

#[test]
fn empty_tree_yields_zero_aggregate() {
    let entries: Vec<ScanEntry> = Vec::new();
    let stats = ComplexityAnalyzer::new().analyze(&entries);
    assert_eq!(stats.file_count, 0);
    assert_eq!(stats.total_lines, 0);
    assert_eq!(stats.code_lines, 0);
    assert_eq!(stats.comment_lines, 0);
    assert_eq!(stats.blank_lines, 0);
}

#[test]
fn checked_analysis_agrees() {
    let entries = vec![entry(&["m.cpp"], true, Some("int x;\n"))];
    let analyzer = ComplexityAnalyzer::new();
    let checked = analyzer.analyze_checked(&entries).unwrap();
    assert_eq!(checked, analyzer.analyze(&entries));
}

#[test]
fn hidden_name_predicate() {
    assert!(is_hidden(b".git"));
    assert!(!is_hidden(b"src"));
    assert!(!is_hidden(b""));
}

#[test]
fn recognized_extensions() {
    assert!(has_recognized_extension(b"a.rs"));
    assert!(has_recognized_extension(b"a.js"));
    assert!(has_recognized_extension(b"a.py"));
    assert!(has_recognized_extension(b"a.cpp"));
    assert!(has_recognized_extension(b"a.java"));
    assert!(has_recognized_extension(b"lib.tar.rs"));
    assert!(!has_recognized_extension(b"a.RS"));
    assert!(!has_recognized_extension(b"a.txt"));
    assert!(!has_recognized_extension(b"rs"));
    assert!(!has_recognized_extension(b".rs"));
    assert!(!has_recognized_extension(b"a."));
}

#[test]
fn zero_division_guard() {
    let stats = ComplexityStats {
        file_count: 0,
        total_lines: 0,
        code_lines: 0,
        comment_lines: 0,
        blank_lines: 0,
    };
    assert_eq!(stats.code_percent(), 0);
    assert_eq!(stats.comment_percent(), 0);
}

#[test]
fn percentages_truncate() {
    let stats = ComplexityStats {
        file_count: 1,
        total_lines: 3,
        code_lines: 1,
        comment_lines: 2,
        blank_lines: 0,
    };
    assert_eq!(stats.code_percent(), 33);
    assert_eq!(stats.comment_percent(), 66);
    assert_eq!(percent_of(1, 2), 50);
    assert_eq!(percent_of(0, 5), 0);
}

#[test]
fn bar_width_split() {
    assert_eq!(bar_widths(50, 20), (10, 10));
    assert_eq!(bar_widths(0, 20), (0, 20));
    assert_eq!(bar_widths(100, 20), (20, 0));
    assert_eq!(bar_widths(33, 20), (6, 14));
}

#[test]
fn default_aggregate_is_zero() {
    let stats = ComplexityStats::default();
    assert_eq!(stats.file_count, 0);
    assert_eq!(stats.total_lines, 0);
}
