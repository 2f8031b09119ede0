use patingin::diff::{ChangeType, ChangedLine, DiffScope, FileDiff, GitDiff};
use patingin::pattern::{AntiPattern, DetectionMethod, Language, Severity};
use patingin::selection::{
    count_patterns_by_severity, determine_diff_scope, determine_target_languages, every_language,
    filter_diff_by_language, get_language_from_args, LanguageFlags, SelectionError,
};

fn no_flags() -> LanguageFlags {
    LanguageFlags {
        elixir: false,
        javascript: false,
        typescript: false,
        python: false,
        rust: false,
        zig: false,
        sql: false,
    }
}

fn set(flags: &mut LanguageFlags, name: &str) {
    match name {
        "elixir" => flags.elixir = true,
        "javascript" => flags.javascript = true,
        "typescript" => flags.typescript = true,
        "python" => flags.python = true,
        "rust" => flags.rust = true,
        "zig" => flags.zig = true,
        "sql" => flags.sql = true,
        _ => unreachable!(),
    }
}

#[test]
fn test_determine_diff_scope_default() {
    let scope = determine_diff_scope(false, false, None);

    match scope {
        DiffScope::SinceCommit(ref reference) => {
            assert_eq!(reference, "HEAD");
        }
        _ => panic!("Expected SinceCommit(HEAD) for default scope"),
    }
}

#[test]
fn test_determine_diff_scope_staged() {
    let scope = determine_diff_scope(true, false, None);

    match scope {
        DiffScope::Staged => {}
        _ => panic!("Expected Staged scope"),
    }
}

#[test]
fn test_determine_diff_scope_uncommitted() {
    let scope = determine_diff_scope(false, true, None);

    match scope {
        DiffScope::Unstaged => {}
        _ => panic!("Expected Unstaged scope"),
    }
}

#[test]
fn test_determine_diff_scope_since_commit() {
    let scope = determine_diff_scope(false, false, Some("origin/main"));

    match scope {
        DiffScope::SinceCommit(ref reference) => {
            assert_eq!(reference, "origin/main");
        }
        _ => panic!("Expected SinceCommit with specified reference"),
    }
}

#[test]
fn test_determine_diff_scope_precedence() {
    // staged takes precedence
    let scope = determine_diff_scope(true, true, Some("main"));
    match scope {
        DiffScope::Staged => {}
        _ => panic!("Staged should take precedence"),
    }
    assert_eq!(determine_diff_scope(false, true, Some("main")), DiffScope::Unstaged);
}

fn one_file(path: &str, content: &str) -> GitDiff {
    GitDiff {
        files: vec![FileDiff {
            path: path.to_string(),
            added_lines: vec![ChangedLine {
                line_number: 1,
                content: content.to_string(),
                change_type: ChangeType::Added,
                context_before: vec![],
                context_after: vec![],
            }],
            removed_lines: vec![],
        }],
    }
}

#[test]
fn test_filter_diff_by_language() {
    let git_diff = one_file("test.ex", "defmodule Test do");

    let filtered = filter_diff_by_language(git_diff, &Language::Elixir);
    assert_eq!(filtered.files.len(), 1);
    assert_eq!(filtered.files[0].path, "test.ex");
    assert_eq!(filtered.files[0].added_lines[0].content, "defmodule Test do");
}

#[test]
fn test_filter_diff_by_language_no_match() {
    let git_diff = one_file("test.py", "def test():");

    let filtered = filter_diff_by_language(git_diff, &Language::Elixir);
    assert_eq!(filtered.files.len(), 0);
}

#[test]
fn filtering_keeps_the_order_and_goes_by_the_lowered_extension() {
    let mut diff = one_file("b.EXS", "1");
    diff.files.extend(one_file("a.py", "2").files);
    diff.files.extend(one_file("README", "3").files);
    diff.files.extend(one_file("a.ex", "4").files);
    diff.files.extend(one_file("b.EXS", "5").files);
    let filtered = filter_diff_by_language(diff, &Language::Elixir);
    let kept: Vec<(&str, &str)> =
        filtered.files.iter().map(|f| (f.path.as_str(), f.added_lines[0].content.as_str())).collect();
    assert_eq!(kept, vec![("b.EXS", "1"), ("a.ex", "4"), ("b.EXS", "5")]);
}

#[test]
fn test_get_language_from_args_single_language() {
    let mut args = no_flags();
    args.elixir = true;

    let result = get_language_from_args(&args);
    assert!(result.is_ok());
    assert_eq!(result.unwrap(), Language::Elixir);
}

#[test]
fn test_get_language_from_args_multiple_languages() {
    let mut args = no_flags();
    args.elixir = true;
    args.javascript = true;

    let result = get_language_from_args(&args);
    assert!(result.is_err());
    assert_eq!(result, Err(SelectionError::NotExactlyOneLanguage));
    assert!(result.unwrap_err().message().contains("exactly one language"));
}

#[test]
fn test_get_language_from_args_no_language() {
    let args = no_flags();

    let result = get_language_from_args(&args);
    assert!(result.is_err());
    assert!(result.unwrap_err().message().contains("exactly one language"));
}

#[test]
fn test_all_language_flags() {
    for (flag_name, expected_language) in [
        ("elixir", Language::Elixir),
        ("javascript", Language::JavaScript),
        ("typescript", Language::TypeScript),
        ("python", Language::Python),
        ("rust", Language::Rust),
        ("zig", Language::Zig),
        ("sql", Language::Sql),
    ] {
        let mut args = no_flags();
        set(&mut args, flag_name);

        let result = get_language_from_args(&args);
        assert!(result.is_ok(), "Failed for language: {}", flag_name);
        assert_eq!(result.unwrap(), expected_language);

        // Any second switch is one too many.
        for other in ["elixir", "javascript", "typescript", "python", "rust", "zig", "sql"] {
            if other != flag_name {
                let mut two = args;
                set(&mut two, other);
                assert_eq!(get_language_from_args(&two), Err(SelectionError::NotExactlyOneLanguage));
            }
        }
    }
}

fn pattern(id: &str, severity: Severity) -> AntiPattern {
    AntiPattern {
        id: id.to_string(),
        name: "Pattern".to_string(),
        language: Language::Elixir,
        severity,
        description: "About".to_string(),
        detection_method: DetectionMethod::Regex { pattern: "test".to_string() },
        fix_suggestion: "Fix".to_string(),
        source_url: None,
        claude_code_fixable: true,
        examples: vec![],
        tags: vec![],
        enabled: true,
    }
}

#[test]
fn test_count_patterns_by_severity() {
    let patterns = vec![
        pattern("critical1", Severity::Critical),
        pattern("major1", Severity::Major),
        pattern("major2", Severity::Major),
        pattern("warning1", Severity::Warning),
        pattern("warning2", Severity::Warning),
        pattern("warning3", Severity::Warning),
    ];
    let refs: Vec<&AntiPattern> = patterns.iter().collect();
    assert_eq!(count_patterns_by_severity(&refs), (1, 2, 3));
    assert_eq!(count_patterns_by_severity(&[]), (0, 0, 0));
}

#[test]
fn target_languages_follow_the_switches_then_the_project() {
    let all = every_language();
    assert_eq!(
        all,
        vec![
            Language::Elixir,
            Language::JavaScript,
            Language::TypeScript,
            Language::Python,
            Language::Rust,
            Language::Zig,
            Language::Sql
        ]
    );
    let project = vec![Language::Zig, Language::Elixir];

    let mut flags = no_flags();
    flags.sql = true;
    flags.javascript = true;
    // The switches win, in declared order.
    assert_eq!(determine_target_languages(&flags, true, &project), vec![Language::JavaScript, Language::Sql]);
    assert_eq!(determine_target_languages(&flags, false, &vec![]), vec![Language::JavaScript, Language::Sql]);

    let none = no_flags();
    assert_eq!(determine_target_languages(&none, true, &project), all);
    assert_eq!(determine_target_languages(&none, false, &project), project);
    assert_eq!(determine_target_languages(&none, false, &vec![]), all);
}
