use patingin::fixes::{confidence_percent, ClaudeCodeIntegration, FixOutcome, FixRequest, FixResult, GitHubIntegration};
use patingin::pattern::{AntiPattern, DetectionMethod, Language, Severity};
use patingin::review::ReviewViolation;

fn tool() -> ClaudeCodeIntegration {
    ClaudeCodeIntegration { available: true, version: Some("1.0".to_string()), command: "assistant".to_string() }
}

fn request() -> FixRequest {
    FixRequest {
        file_path: "lib/user.ex".to_string(),
        line_number: 42,
        original_code: "atom = String.to_atom(input)".to_string(),
        violation_description: "Dynamic atom creation".to_string(),
        fix_suggestion: "Use String.to_existing_atom".to_string(),
        language: "elixir".to_string(),
    }
}

#[test]
fn the_prompt_holds_the_request() {
    let prompt = tool().create_fix_prompt(&request());
    let expected = "Fix this elixir code violation:\n\nFile: lib/user.ex\nLine: 42\n\nIssue: Dynamic atom creation\nSuggestion: Use String.to_existing_atom\n\nOriginal code:\n```elixir\natom = String.to_atom(input)\n```\n\nPlease provide ONLY the fixed code without explanations. Return the corrected line(s) that should replace the original code.";
    assert_eq!(prompt, expected);
}

#[test]
fn code_is_taken_from_the_first_fenced_block() {
    let t = tool();
    assert_eq!(t.extract_code_from_markdown("Here:\n```elixir\na = 1\nb = 2\n```\nmore\n```\nc\n```"), "a = 1\nb = 2");
    assert_eq!(t.extract_code_from_markdown("```\nonly\n"), "only");
    assert_eq!(t.extract_code_from_markdown("no fences"), "no fences");
    assert_eq!(t.extract_code_from_markdown("```\n```\nafter"), "```\n```\nafter");
    assert_eq!(t.extract_code_from_markdown("x\n ```\ny"), "x\n ```\ny");
    assert_eq!(t.extract_code_from_markdown("```rust\n\n  indented\r\n```"), "\n  indented");
    assert_eq!(t.extract_code_from_markdown(""), "");
}

#[test]
fn confidence_rewards_structure_and_punishes_explanations() {
    let t = tool();
    assert_eq!(t.calculate_confidence("x = 1"), 70);
    assert_eq!(t.calculate_confidence("def f do"), 80);
    assert_eq!(t.calculate_confidence("function"), 70);
    assert_eq!(t.calculate_confidence("function f"), 80);
    assert_eq!(t.calculate_confidence("defmodule A do"), 80);
    assert_eq!(t.calculate_confidence("f(x)"), 80);
    assert_eq!(t.calculate_confidence("f(x"), 70);
    assert_eq!(t.calculate_confidence(")("), 80);
    assert_eq!(t.calculate_confidence("def f(x)"), 90);
    assert_eq!(t.calculate_confidence("Here's the fix"), 40);
    assert_eq!(t.calculate_confidence("THIS CODE is better"), 40);
    assert_eq!(t.calculate_confidence("HERE'S: def f(x)"), 60);
    assert_eq!(confidence_percent(""), 70);
}

#[test]
fn answers_are_read() {
    let t = tool();
    let empty = t.parse_claude_response(" \n\t ", &request()).unwrap();
    assert!(!empty.success);
    assert_eq!(empty.fixed_code, None);
    assert_eq!(empty.error_message.as_deref(), Some("Empty response from the assistant"));
    assert_eq!(empty.confidence, 0);

    let plain = t.parse_claude_response("\n  atom = String.to_existing_atom(input)  \n", &request()).unwrap();
    assert!(plain.success);
    assert_eq!(plain.fixed_code.as_deref(), Some("atom = String.to_existing_atom(input)"));
    assert_eq!(plain.error_message, None);
    assert_eq!(plain.confidence, 80);

    let fenced = t.parse_claude_response("Here's the code:\n```elixir\ndef f(x), do: x\n```\n", &request()).unwrap();
    assert_eq!(fenced.fixed_code.as_deref(), Some("def f(x), do: x"));
    assert_eq!(fenced.confidence, 90);

    let inline = t.parse_claude_response("use ```x``` here", &request()).unwrap();
    assert_eq!(inline.fixed_code.as_deref(), Some("use ```x``` here"));

    let copy = fenced.clone();
    assert_eq!(copy.fixed_code, fenced.fixed_code);
    assert_eq!(copy.confidence, 90);
}

#[test]
fn results_for_a_tool_that_is_missing_or_fails() {
    let missing = ClaudeCodeIntegration::unavailable();
    assert!(!missing.available);
    assert_eq!(missing.version, None);
    assert_eq!(missing.command, "");
    let result = ClaudeCodeIntegration::unavailable_result();
    assert!(!result.success);
    assert_eq!(result.error_message.as_deref(), Some("Assistant CLI not available"));
    assert_eq!(result.confidence, 0);
    let result = ClaudeCodeIntegration::failed_result("exit 2");
    assert!(!result.success);
    assert_eq!(result.fixed_code, None);
    assert_eq!(result.error_message.as_deref(), Some("Assistant execution failed: exit 2"));
}

#[test]
fn brackets_are_balanced_when_each_is_closed_in_time() {
    let t = tool();
    assert!(t.check_balanced_brackets("", '(', ')'));
    assert!(t.check_balanced_brackets("f(a, (b))", '(', ')'));
    assert!(t.check_balanced_brackets("()()", '(', ')'));
    assert!(!t.check_balanced_brackets("(()", '(', ')'));
    assert!(!t.check_balanced_brackets("())", '(', ')'));
    assert!(!t.check_balanced_brackets(")(", '(', ')'));
    assert!(!t.check_balanced_brackets("())(", '(', ')'));
    assert!(t.check_balanced_brackets("[(])", '(', ')'));
    assert!(t.check_balanced_brackets("{a}", '[', ']'));
    // With one character for both, every one opens.
    assert!(!t.check_balanced_brackets("||", '|', '|'));
    assert!(t.check_balanced_brackets("", '|', '|'));
}

#[test]
fn fixes_are_validated() {
    let t = tool();
    assert_eq!(t.validate_fix("a", "b", "elixir"), Ok(true));
    assert_eq!(t.validate_fix("a", "  ", "elixir"), Ok(false));
    assert_eq!(t.validate_fix("a", "", "elixir"), Ok(false));
    assert_eq!(t.validate_fix(" a\n", "a", "elixir"), Ok(false));
    assert_eq!(t.validate_fix("a", "a b", "elixir"), Ok(true));
    assert_eq!(t.validate_fix("a", "f(", "Elixir"), Ok(false));
    assert_eq!(t.validate_fix("a", "f{", "ELIXIR"), Ok(false));
    assert_eq!(t.validate_fix("a", "f[", "elixir"), Ok(false));
    assert_eq!(t.validate_fix("a", "f{", "javascript"), Ok(false));
    assert_eq!(t.validate_fix("a", "f{", "typescript"), Ok(false));
    assert_eq!(t.validate_fix("a", "f{", "rust"), Ok(false));
    // Python is not checked for braces.
    assert_eq!(t.validate_fix("a", "f{", "python"), Ok(true));
    assert_eq!(t.validate_fix("a", "f[", "python"), Ok(false));
    assert_eq!(t.validate_fix("a", "f(", "python"), Ok(false));
    // Other languages are not checked at all.
    assert_eq!(t.validate_fix("a", "f({[", "zig"), Ok(true));
    assert_eq!(t.validate_fix("a", "f({[", ""), Ok(true));
    assert_eq!(t.validate_elixir_syntax("f({[]})"), Ok(true));
    assert_eq!(t.validate_javascript_syntax("f({[})"), Ok(false));
    assert_eq!(t.validate_python_syntax("f({[})"), Ok(false));
    assert_eq!(t.validate_python_syntax("f({[]"), Ok(false));
    assert_eq!(t.validate_python_syntax("f([]){"), Ok(true));
    assert_eq!(t.validate_rust_syntax("fn f() { [1] }"), Ok(true));
}

#[test]
fn fixes_replace_lines() {
    let t = tool();
    let content = "one\ntwo\nthree\n";
    let fixes = vec![(2usize, "TWO".to_string()), (3, "THREE".to_string())];
    assert_eq!(t.apply_fixes(content, &fixes), "one\nTWO\nTHREE");
    // Out of range fixes are skipped; the last fix of a line stands.
    let fixes = vec![
        (0usize, "zero".to_string()),
        (1, "first try".to_string()),
        (4, "four".to_string()),
        (1, "ONE".to_string()),
        (usize::MAX, "max".to_string()),
    ];
    assert_eq!(t.apply_fixes(content, &fixes), "ONE\ntwo\nthree");
    assert_eq!(t.apply_fixes(content, &vec![]), "one\ntwo\nthree");
    assert_eq!(t.apply_fixes("", &vec![(1usize, "x".to_string())]), "");
    assert_eq!(t.apply_fixes("a\r\nb", &vec![(2usize, "B\nB2".to_string())]), "a\nB\nB2");
}

#[test]
fn authentication_needs_a_token() {
    assert!(GitHubIntegration::with_token(Some("SECRET-REDACTED".to_string())).is_authenticated());
    assert!(!GitHubIntegration::with_token(None).is_authenticated());
}

#[test]
fn requests_can_be_copied() {
    let copy = request().clone();
    assert_eq!(copy.file_path, "lib/user.ex");
    assert_eq!(copy.line_number, 42);
    assert_eq!(copy.language, "elixir");
}

fn result(success: bool, code: Option<&str>, confidence: u8) -> FixResult {
    FixResult { success, fixed_code: code.map(|c| c.to_string()), error_message: None, confidence }
}

#[test]
fn answers_are_judged_in_order() {
    let decide = ClaudeCodeIntegration::decide;
    assert_eq!(decide(&result(true, Some("x"), 70), 70, true), FixOutcome::Ready);
    assert_eq!(decide(&result(true, Some("x"), 100), 0, true), FixOutcome::Ready);
    assert_eq!(decide(&result(true, Some("x"), 70), 70, false), FixOutcome::Invalid);
    assert_eq!(decide(&result(true, None, 70), 70, true), FixOutcome::NoFix);
    assert_eq!(decide(&result(true, None, 70), 70, false), FixOutcome::NoFix);
    assert_eq!(decide(&result(true, Some("x"), 69), 70, true), FixOutcome::LowConfidence);
    assert_eq!(decide(&result(true, None, 69), 70, false), FixOutcome::LowConfidence);
    assert_eq!(decide(&result(false, Some("x"), 100), 70, true), FixOutcome::Failed);
    assert_eq!(decide(&result(false, None, 0), 0, false), FixOutcome::Failed);
}

#[test]
fn batches_are_summed_up() {
    let marks = vec![(true, true), (false, true), (false, false), (true, true), (false, true), (false, false), (false, false)];
    let tally = ClaudeCodeIntegration::tally(&marks);
    assert_eq!((tally.fixed, tally.failed, tally.skipped), (2, 3, 2));
    let tally = ClaudeCodeIntegration::tally(&vec![]);
    assert_eq!((tally.fixed, tally.failed, tally.skipped), (0, 0, 0));
}

#[test]
fn a_request_is_made_from_a_violation() {
    let violation = ReviewViolation {
        rule: AntiPattern {
            id: "r".to_string(),
            name: "Rule".to_string(),
            language: Language::Elixir,
            severity: Severity::Major,
            description: "The description of the rule".to_string(),
            detection_method: DetectionMethod::Regex { pattern: "x".to_string() },
            fix_suggestion: "The advice of the rule".to_string(),
            source_url: None,
            claude_code_fixable: true,
            examples: vec![],
            tags: vec![],
            enabled: true,
        },
        file_path: "web/app.ts".to_string(),
        line_number: 7,
        content: "let x = y".to_string(),
        severity: Severity::Major,
        language: Language::TypeScript,
        fix_suggestion: "The advice of the violation".to_string(),
        auto_fixable: true,
        context_before: vec![],
        context_after: vec![],
        confidence: 85,
    };
    let request = ClaudeCodeIntegration::create_fix_request(&violation);
    assert_eq!(request.file_path, "web/app.ts");
    assert_eq!(request.line_number, 7);
    assert_eq!(request.original_code, "let x = y");
    assert_eq!(request.violation_description, "The description of the rule");
    assert_eq!(request.fix_suggestion, "The advice of the violation");
    assert_eq!(request.language, "typescript");
}
