use chipmunk_tools::grep::{
    get_matcher, get_patterns_as_regs, is_text_file, next_scan_action, tally_line, GrepError,
    PatternCounts, ScanAction, SearchResult,
};

fn counts_for(patterns: &[&str], lines: &[&str]) -> PatternCounts {
    let regs = get_patterns_as_regs(patterns, true).ok().unwrap();
    let mut counts = PatternCounts::new();
    for line in lines {
        tally_line(&mut counts, &regs, line);
    }
    counts
}

#[test]
fn patterns_are_escaped() {
    let regs = get_patterns_as_regs(&["a.b", "x(y)", "plain"], false).ok().unwrap();
    assert_eq!(regs.len(), 3);
    assert_eq!(regs[0].source_text(), "a\\.b");
    assert_eq!(regs[1].source_text(), "x\\(y\\)");
    assert_eq!(regs[2].source_text(), "plain");
}

#[test]
fn matcher_builds() {
    assert!(get_matcher(&["a.b", "c|d", ""]).is_ok());
    assert!(get_matcher(&[]).is_ok());
}

#[test]
fn occurrences_are_counted_per_pattern() {
    let counts = counts_for(&["ab", "a.b", "zz"], &["abab a.b axb\n", "ab\n"]);
    assert_eq!(counts.get("ab"), Some(3));
    assert_eq!(counts.get("a\\.b"), Some(1));
    assert_eq!(counts.get("zz"), Some(0));
    assert_eq!(counts.get("a.b"), None);
    assert_eq!(counts.entries().len(), 3);
}

#[test]
fn matches_do_not_overlap() {
    let counts = counts_for(&["aa"], &["aaaaa"]);
    assert_eq!(counts.get("aa"), Some(2));
}

#[test]
fn empty_pattern_matches_at_every_boundary() {
    let counts = counts_for(&[""], &["héllo"]);
    assert_eq!(counts.get(""), Some(6));
}

#[test]
fn duplicate_patterns_share_one_count() {
    let counts = counts_for(&["x", "x"], &["xx"]);
    assert_eq!(counts.get("x"), Some(4));
    assert_eq!(counts.entries().len(), 1);
}

#[test]
fn counts_add_up() {
    let mut counts = PatternCounts::new();
    counts.add("k".to_string(), 2);
    counts.add("k".to_string(), 3);
    counts.add("j".to_string(), 0);
    assert_eq!(counts.get("k"), Some(5));
    assert_eq!(counts.get("j"), Some(0));
}

#[test]
fn every_file_is_a_text_file() {
    assert!(is_text_file("/var/log/syslog"));
    assert!(is_text_file(""));
}

#[test]
fn not_a_text_file_result() {
    let r = SearchResult::not_a_text_file("/bin/ls".to_string());
    assert_eq!(r.file_path, "/bin/ls");
    assert_eq!(r.error_message, Some("File '/bin/ls' is not a text file".to_string()));
    assert_eq!(r.pattern_counts.entries().len(), 0);
    let c = SearchResult::counted("f".to_string(), PatternCounts::new());
    assert_eq!(c.error_message, None);
}

#[test]
fn scan_actions() {
    assert!(matches!(next_scan_action(0, 2, false), ScanAction::Process(0)));
    assert!(matches!(next_scan_action(1, 2, true), ScanAction::Cancel));
    assert!(matches!(next_scan_action(2, 2, true), ScanAction::Finish));
    assert!(matches!(next_scan_action(0, 0, false), ScanAction::Finish));
}

#[test]
fn regex_errors_convert() {
    let err = regex::Regex::new("(").err().unwrap();
    assert!(matches!(GrepError::from(err), GrepError::RegExError(_)));
    let err = grep_regex::RegexMatcherBuilder::new().build("(").err().unwrap();
    assert!(matches!(GrepError::from(err), GrepError::BuilingRegExError(_)));
}

#[test]
fn different_patterns_keep_separate_counts() {
    let counts = counts_for(&["a.b", "a\\.b", "a"], &["a.b a\\.b"]);
    assert_eq!(counts.entries().len(), 3);
    assert_eq!(counts.get("a\\.b"), Some(1));
    assert_eq!(counts.get("a\\\\\\.b"), Some(1));
    assert_eq!(counts.get("a"), Some(2));
}

#[test]
fn try_tally_adds_like_tally() {
    let regs = get_patterns_as_regs(&["ab", "b"], true).ok().unwrap();
    let mut counts = PatternCounts::new();
    assert!(chipmunk_tools::grep::try_tally_line(&mut counts, &regs, "abab"));
    assert_eq!(counts.get("ab"), Some(2));
    assert_eq!(counts.get("b"), Some(2));
}

#[test]
fn try_tally_refuses_overflow_and_keeps_counts() {
    let regs = get_patterns_as_regs(&["a"], true).ok().unwrap();
    let mut counts = PatternCounts::new();
    counts.add("a".to_string(), usize::MAX);
    assert!(!chipmunk_tools::grep::try_tally_line(&mut counts, &regs, "a"));
    assert_eq!(counts.get("a"), Some(usize::MAX));
    assert!(chipmunk_tools::grep::try_tally_line(&mut counts, &regs, "b"));
    assert_eq!(counts.get("a"), Some(usize::MAX));
}

#[test]
fn scan_visits_every_file_in_order() {
    let mut visited = Vec::new();
    loop {
        match next_scan_action(visited.len(), 3, false) {
            ScanAction::Process(i) => visited.push(i),
            ScanAction::Finish => break,
            ScanAction::Cancel => panic!("not cancelled"),
        }
    }
    assert_eq!(visited, vec![0, 1, 2]);
    let cancels = [false, true, false];
    let mut visited = Vec::new();
    let outcome = loop {
        let k = visited.len();
        match next_scan_action(k, 3, k < 3 && cancels[k]) {
            ScanAction::Process(i) => visited.push(i),
            ScanAction::Finish => break "finished",
            ScanAction::Cancel => break "cancelled",
        }
    };
    assert_eq!(visited, vec![0]);
    assert_eq!(outcome, "cancelled");
}
