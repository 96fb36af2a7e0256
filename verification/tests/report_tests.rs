use vitality::report::{update_slackers, SlackerReport};

#[test]
fn new_report_is_empty() {
    let report = SlackerReport::new();
    assert!(report.is_empty());
    assert_eq!(report.len(), 0);
    assert!(report.findings_for("A").is_empty());
}

#[test]
fn findings_are_appended_and_never_deduplicated() {
    let mut report = SlackerReport::new();
    update_slackers(&mut report, "A".to_string(), "x".to_string());
    update_slackers(&mut report, "B".to_string(), "y".to_string());
    update_slackers(&mut report, "A".to_string(), "x".to_string());
    update_slackers(&mut report, "A".to_string(), "z".to_string());
    assert_eq!(report.len(), 2);
    assert!(!report.is_empty());
    assert_eq!(report.entry(0).peer, "A");
    assert_eq!(report.entry(0).findings, vec!["x", "x", "z"]);
    assert_eq!(report.entry(1).peer, "B");
    assert_eq!(report.entry(1).findings, vec!["y"]);
    assert_eq!(report.findings_for("A"), vec!["x", "x", "z"]);
    assert_eq!(report.findings_for("B"), vec!["y"]);
    assert!(report.findings_for("C").is_empty());
}
