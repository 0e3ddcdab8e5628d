use bonomen::rules::{parse_rule_line, parse_rules, parse_threshold, split_fields, RuleError};

fn lines(ls: &[&str]) -> Vec<String> {
    ls.iter().map(|l| l.to_string()).collect()
}

#[test]
fn two_field_line_rejects_file() {
    let err = parse_rules(&lines(&["svchost;1;/usr/bin/svchost", "init;1"])).err().unwrap();
    assert_eq!(err.line_no, 1);
    assert_eq!(err.line, "init;1");
    assert_eq!(err.kind, RuleError::TooFewFields);
}

#[test]
fn first_bad_line_is_reported() {
    let err = parse_rules(&lines(&["a;x;/a", "b"])).err().unwrap();
    assert_eq!(err.line_no, 0);
    assert_eq!(err.kind, RuleError::BadThreshold);
}

#[test]
fn rules_file_in_order() {
    let rules = parse_rules(&lines(&[
        "svchost.exe;1;C:\\Windows\\System32\\svchost.exe",
        "init;2;/sbin/init;/usr/lib/systemd/systemd",
    ]))
    .ok()
    .unwrap();
    assert_eq!(rules.len(), 2);
    assert_eq!(rules[0].name, "svchost.exe");
    assert_eq!(rules[0].threshold, 1);
    assert_eq!(rules[0].whitelist, vec!["C:\\Windows\\System32\\svchost.exe".to_string()]);
    assert_eq!(rules[1].name, "init");
    assert_eq!(rules[1].threshold, 2);
    assert_eq!(rules[1].whitelist, vec!["/sbin/init".to_string(), "/usr/lib/systemd/systemd".to_string()]);
}

#[test]
fn empty_rules_file() {
    assert_eq!(parse_rules(&vec![]).ok().unwrap().len(), 0);
}

#[test]
fn rule_line_errors() {
    assert_eq!(parse_rule_line("").err(), Some(RuleError::TooFewFields));
    assert_eq!(parse_rule_line("a;1").err(), Some(RuleError::TooFewFields));
    assert_eq!(parse_rule_line(";1;/a").err(), Some(RuleError::EmptyName));
    assert_eq!(parse_rule_line("a;one;/a").err(), Some(RuleError::BadThreshold));
    assert_eq!(parse_rule_line("a;-1;/a").err(), Some(RuleError::BadThreshold));
}

#[test]
fn rule_line_with_empty_path() {
    let r = parse_rule_line("a;+3;").ok().unwrap();
    assert_eq!(r.name, "a");
    assert_eq!(r.threshold, 3);
    assert_eq!(r.whitelist, vec!["".to_string()]);
}

#[test]
fn fields_split_at_every_semicolon() {
    assert_eq!(split_fields("a;;b"), vec!["a".to_string(), "".to_string(), "b".to_string()]);
    assert_eq!(split_fields(""), vec!["".to_string()]);
    assert_eq!(split_fields(";"), vec!["".to_string(), "".to_string()]);
    assert_eq!(split_fields("näme;1"), vec!["näme".to_string(), "1".to_string()]);
}

#[test]
fn thresholds() {
    assert_eq!(parse_threshold("0"), Some(0));
    assert_eq!(parse_threshold("17"), Some(17));
    assert_eq!(parse_threshold("+7"), Some(7));
    assert_eq!(parse_threshold("007"), Some(7));
    assert_eq!(parse_threshold("4294967295"), Some(u32::MAX));
    assert_eq!(parse_threshold("4294967296"), None);
    assert_eq!(parse_threshold("99999999999999999999x"), None);
    assert_eq!(parse_threshold(""), None);
    assert_eq!(parse_threshold("+"), None);
    assert_eq!(parse_threshold("-1"), None);
    assert_eq!(parse_threshold("1a"), None);
    assert_eq!(parse_threshold(" 1"), None);
}
