use patingin::config::Config;
use patingin::loader::{
    fraction_whole_part, parse_language, parse_method, parse_severity, rule_from_record, DetectionRecord, RuleRecord,
};
use patingin::pattern::{CodeExample, DetectionMethod, Fraction, Language, Severity};
use patingin::registry::PatternRegistry;

fn record(id: &str, language: &str, severity: &str, method_type: &str, threshold: Option<Fraction>) -> RuleRecord {
    RuleRecord {
        id: id.to_string(),
        name: format!("Name of {}", id),
        language: language.to_string(),
        severity: severity.to_string(),
        description: format!("About {}", id),
        detection_method: DetectionRecord {
            method_type: method_type.to_string(),
            pattern: format!("pattern_{}", id),
            threshold,
        },
        fix_suggestion: format!("Fix {}", id),
        source_url: Some("https://example.org".to_string()),
        claude_code_fixable: true,
        examples: vec![CodeExample {
            bad: "bad".to_string(),
            good: "good".to_string(),
            explanation: "why".to_string(),
        }],
        tags: vec!["t1".to_string(), "t2".to_string()],
        enabled: false,
    }
}

#[test]
fn names_are_read_in_lower_case_only() {
    let languages = [
        ("elixir", Language::Elixir),
        ("javascript", Language::JavaScript),
        ("typescript", Language::TypeScript),
        ("python", Language::Python),
        ("rust", Language::Rust),
        ("zig", Language::Zig),
        ("sql", Language::Sql),
    ];
    for (name, language) in languages {
        assert_eq!(parse_language(name), Some(language));
        assert_eq!(language.to_string(), name);
        assert_eq!(language.name(), name);
        assert_eq!(parse_language(&name.to_uppercase()), None);
    }
    assert_eq!(parse_language(""), None);
    assert_eq!(parse_language("js"), None);
    assert_eq!(parse_language("elixir "), None);
    assert_eq!(parse_severity("critical"), Some(Severity::Critical));
    assert_eq!(parse_severity("major"), Some(Severity::Major));
    assert_eq!(parse_severity("warning"), Some(Severity::Warning));
    assert_eq!(parse_severity("Warning"), None);
    assert_eq!(parse_severity("minor"), None);
    assert_eq!(parse_severity(""), None);
}

#[test]
fn detection_methods_are_read_with_their_defaults() {
    let read = |method_type: &str, threshold: Option<Fraction>| -> Option<DetectionMethod> {
        parse_method(&DetectionRecord { method_type: method_type.to_string(), pattern: "p".to_string(), threshold })
    };
    let seven_halves = Fraction { numerator: 7, denominator: 2 };
    match read("regex", Some(seven_halves)) {
        Some(DetectionMethod::Regex { pattern }) => assert_eq!(pattern, "p"),
        other => panic!("{:?}", other),
    }
    match read("custom", None) {
        Some(DetectionMethod::Custom { pattern }) => assert_eq!(pattern, "p"),
        other => panic!("{:?}", other),
    }
    match read("ratio", None) {
        Some(DetectionMethod::Ratio { threshold, pattern }) => {
            assert_eq!(threshold, Fraction { numerator: 3, denominator: 10 });
            assert_eq!(pattern, "p");
        }
        other => panic!("{:?}", other),
    }
    match read("ratio", Some(seven_halves)) {
        Some(DetectionMethod::Ratio { threshold, .. }) => assert_eq!(threshold, seven_halves),
        other => panic!("{:?}", other),
    }
    match read("line_count", None) {
        Some(DetectionMethod::LineCount { threshold, pattern }) => {
            assert_eq!(threshold, 10);
            assert_eq!(pattern, "p");
        }
        other => panic!("{:?}", other),
    }
    match read("line_count", Some(seven_halves)) {
        Some(DetectionMethod::LineCount { threshold, .. }) => assert_eq!(threshold, 3),
        other => panic!("{:?}", other),
    }
    assert!(read("ast", None).is_none());
    assert!(read("Regex", None).is_none());
    assert!(read("", None).is_none());
}

#[test]
fn whole_parts_round_down() {
    let whole = |numerator, denominator| fraction_whole_part(Fraction { numerator, denominator });
    assert_eq!(whole(0, 1), 0);
    assert_eq!(whole(9, 10), 0);
    assert_eq!(whole(10, 10), 1);
    assert_eq!(whole(25, 2), 12);
    assert_eq!(whole(5, 0), 0);
    assert_eq!(whole(u64::MAX, 1) as u128, (u64::MAX as u128).min(usize::MAX as u128));
}

#[test]
fn a_record_becomes_a_rule_with_all_its_fields() {
    let rule = rule_from_record(&record("r", "python", "major", "regex", None)).expect("known names");
    assert_eq!(rule.id, "r");
    assert_eq!(rule.name, "Name of r");
    assert_eq!(rule.language, Language::Python);
    assert_eq!(rule.severity, Severity::Major);
    assert_eq!(rule.description, "About r");
    assert_eq!(rule.fix_suggestion, "Fix r");
    assert_eq!(rule.source_url.as_deref(), Some("https://example.org"));
    assert!(rule.claude_code_fixable);
    assert_eq!(rule.examples.len(), 1);
    assert_eq!(rule.examples[0].bad, "bad");
    assert_eq!(rule.examples[0].good, "good");
    assert_eq!(rule.examples[0].explanation, "why");
    assert_eq!(rule.tags, vec!["t1", "t2"]);
    assert!(!rule.enabled);
    match rule.detection_method {
        DetectionMethod::Regex { pattern } => assert_eq!(pattern, "pattern_r"),
        other => panic!("{:?}", other),
    }
    assert!(rule_from_record(&record("r", "cobol", "major", "regex", None)).is_none());
    assert!(rule_from_record(&record("r", "python", "fatal", "regex", None)).is_none());
    assert!(rule_from_record(&record("r", "python", "major", "ast", None)).is_none());
}

#[test]
fn entries_that_cannot_be_read_are_skipped() {
    let records = vec![
        record("one", "elixir", "critical", "regex", None),
        record("bad_language", "cobol", "critical", "regex", None),
        record("two", "sql", "warning", "ratio", None),
        record("bad_severity", "sql", "fatal", "regex", None),
        record("bad_method", "sql", "major", "magic", None),
        record("one", "rust", "major", "custom", None),
        record("three", "zig", "major", "line_count", Some(Fraction { numerator: 4, denominator: 1 })),
    ];
    let mut registry = PatternRegistry::new();
    registry.add_elixir_patterns();
    let result = registry.load_rules_from_records(&records);
    assert!(result.is_ok());
    assert_eq!(registry.len(), 5);
    assert_eq!(registry.index_len(), 6);
    assert!(registry.get_pattern("bad_language").is_none());
    assert!(registry.get_pattern("bad_severity").is_none());
    assert!(registry.get_pattern("bad_method").is_none());
    // The later entry with the same id replaced the earlier one.
    let one = registry.get_pattern("one").expect("loaded");
    assert_eq!(one.language, Language::Rust);
    assert_eq!(one.severity, Severity::Major);
    let order: Vec<String> = registry.search_patterns("").iter().map(|p| p.id.clone()).collect();
    assert_eq!(order, vec!["dynamic_atom_creation", "long_parameter_list", "one", "two", "three"]);

    let mut empty = PatternRegistry::new();
    empty.load_rules_from_records(&vec![]).expect("loads");
    assert!(empty.is_empty());
}

#[test]
fn the_default_configuration() {
    let config = Config::default();
    assert_eq!(config.version, "1.0");
    assert!(!config.settings.auto_fix);
    assert_eq!(config.settings.severity_threshold, "major");
    assert!(config.settings.focus_languages.is_empty());

    let loaded = Config::load("anywhere.yml").expect("loads");
    assert_eq!(loaded.version, "1.0");
    assert_eq!(loaded.settings.severity_threshold, "major");
    assert!(loaded.save("anywhere.yml").is_ok());

    let mut changed = loaded.clone();
    changed.settings.auto_fix = true;
    changed.settings.focus_languages.push("elixir".to_string());
    let copy = changed.clone();
    assert!(copy.settings.auto_fix);
    assert_eq!(copy.settings.focus_languages, vec!["elixir"]);
}
