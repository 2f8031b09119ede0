use patingin::pattern::{AntiPattern, DetectionMethod, Language, Severity};
use patingin::project::{ProjectInfo, ProjectType};
use patingin::query::create_claude_query;
use patingin::review::ReviewViolation;

fn violation(path: &str, line_number: usize, severity: Severity, before: Vec<&str>, after: Vec<&str>) -> ReviewViolation {
    ReviewViolation {
        rule: AntiPattern {
            id: "rule_id".to_string(),
            name: "Rule Name".to_string(),
            language: Language::Elixir,
            severity,
            description: "What is wrong".to_string(),
            detection_method: DetectionMethod::Regex { pattern: "x".to_string() },
            fix_suggestion: "unused".to_string(),
            source_url: None,
            claude_code_fixable: true,
            examples: vec![],
            tags: vec![],
            enabled: true,
        },
        file_path: path.to_string(),
        line_number,
        content: "the code".to_string(),
        severity,
        language: Language::Elixir,
        fix_suggestion: "Do better".to_string(),
        auto_fixable: true,
        context_before: before.into_iter().map(|s| s.to_string()).collect(),
        context_after: after.into_iter().map(|s| s.to_string()).collect(),
        confidence: 85,
    }
}

fn project(languages: Vec<Language>) -> ProjectInfo {
    ProjectInfo {
        name: "shop".to_string(),
        root_path: "/srv/shop".to_string(),
        languages,
        project_type: ProjectType::Elixir,
        package_files: vec![],
    }
}

#[test]
fn the_query_lists_the_violations_file_by_file() {
    let violations = vec![
        violation("b.ex", 10, Severity::Critical, vec!["before one", "before two"], vec!["after one"]),
        violation("a.ex", 1, Severity::Warning, vec!["odd"], vec![]),
        violation("b.ex", 2, Severity::Major, vec![], vec!["x", "y"]),
    ];
    let query = create_claude_query(&project(vec![Language::Elixir, Language::Sql]), &violations).expect("numbers fit");
    let expected = "Fix these code quality violations in my project:\n\n\
PROJECT: shop (Elixir, Sql)\n\
FILES AFFECTED: 2 files with 3 violations\n\n\
VIOLATIONS FOUND:\n\n\
\u{1F4C1} b.ex:10\n\
\u{1F534} CRITICAL: Rule Name (rule_id)\n   Problem: What is wrong\n   Code:\n   8 \u{2502} before one\n   9 \u{2502} before two\n   10 \u{2502} the code  \u{2190} VIOLATION\n   11 \u{2502} after one\n   Fix: Do better\n\n\
\u{1F4C1} b.ex:2\n\
\u{1F7E1} MAJOR: Rule Name (rule_id)\n   Problem: What is wrong\n   Code:\n   2 \u{2502} the code  \u{2190} VIOLATION\n   3 \u{2502} x\n   4 \u{2502} y\n   Fix: Do better\n\n\
\u{1F4C1} a.ex:1\n\
\u{1F535} WARNING: Rule Name (rule_id)\n   Problem: What is wrong\n   Code:\n   0 \u{2502} odd\n   1 \u{2502} the code  \u{2190} VIOLATION\n   Fix: Do better\n\n\
Please help me fix these issues interactively. Show me the problems and guide me through solutions.";
    assert_eq!(query, expected);
}

#[test]
fn the_query_for_no_violations_and_no_languages() {
    let query = create_claude_query(&project(vec![]), &[]).expect("nothing to number");
    assert_eq!(
        query,
        "Fix these code quality violations in my project:\n\nPROJECT: shop (Unknown)\nFILES AFFECTED: 0 files with 0 violations\n\nVIOLATIONS FOUND:\n\nPlease help me fix these issues interactively. Show me the problems and guide me through solutions."
    );
}

#[test]
fn no_query_where_a_line_number_cannot_be_followed() {
    let fits = violation("a.ex", usize::MAX - 1, Severity::Major, vec!["b"], vec![]);
    assert!(create_claude_query(&project(vec![]), &[fits]).is_some());
    let too_far = violation("a.ex", usize::MAX, Severity::Major, vec![], vec![]);
    assert!(create_claude_query(&project(vec![]), &[too_far]).is_none());
    let after = violation("a.ex", usize::MAX - 1, Severity::Major, vec![], vec!["a"]);
    assert!(create_claude_query(&project(vec![]), &[after]).is_none());
    let before = violation("a.ex", usize::MAX - 1, Severity::Major, vec!["a", "b", "c"], vec![]);
    let query = create_claude_query(&project(vec![]), &[before]).expect("the numbers fit");
    assert!(query.contains(&format!("   {} {} c\n", usize::MAX - 1, '\u{2502}')));
    assert!(query.contains(&format!("   {} {} a\n", usize::MAX - 3, '\u{2502}')));
}
