use logline::rules::{apply_ruleset, contains_text, rule_for, Rule, Verdict};

#[test]
fn test_builtin_rules() {
    assert_eq!(apply_ruleset("always-accept", "anything"), Verdict::Accepted);
    assert_eq!(apply_ruleset("always-reject", "anything"), Verdict::Rejected);
    assert_eq!(
        apply_ruleset("basic-check", "This is a test entity with important content"),
        Verdict::Accepted
    );
    assert_eq!(apply_ruleset("basic-check", "nothing of note"), Verdict::Rejected);
    assert_eq!(apply_ruleset("basic-check", "Important"), Verdict::Rejected);
    assert_eq!(apply_ruleset("basic-check", ""), Verdict::Rejected);
}

#[test]
fn test_unknown_ruleset_accepts() {
    assert_eq!(apply_ruleset("no-such-ruleset", ""), Verdict::Accepted);
    assert_eq!(apply_ruleset("ALWAYS-REJECT", ""), Verdict::Accepted);
    assert!(matches!(rule_for("whatever"), Rule::AlwaysAccept));
    assert!(matches!(rule_for("always-reject"), Rule::AlwaysReject));
    match rule_for("basic-check") {
        Rule::ContentCheck { field, pattern } => {
            assert_eq!(field, "text");
            assert_eq!(pattern, "important");
        }
        _ => panic!("wrong rule"),
    }
}

#[test]
fn test_content_check_is_a_substring_match() {
    let rule = Rule::ContentCheck { field: "text".to_string(), pattern: "é um".to_string() };
    assert_eq!(rule.evaluate("isto é um teste"), Verdict::Accepted);
    assert_eq!(rule.evaluate("é um"), Verdict::Accepted);
    assert_eq!(rule.evaluate("é  um"), Verdict::Rejected);
    assert_eq!(rule.evaluate("é u"), Verdict::Rejected);
    let empty = Rule::ContentCheck { field: "text".to_string(), pattern: "".to_string() };
    assert_eq!(empty.evaluate(""), Verdict::Accepted);
    assert_eq!(empty.evaluate("x"), Verdict::Accepted);
    assert!(contains_text("abcabd", "abd"));
    assert!(contains_text("abc", "c"));
    assert!(!contains_text("abc", "abcd"));
    assert!(!contains_text("", "a"));
}

#[test]
fn test_verdict_names() {
    assert_eq!(Verdict::Accepted.name(), "Accepted");
    assert_eq!(Verdict::Rejected.name(), "Rejected");
}
