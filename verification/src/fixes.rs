//! Working with an assistant that proposes fixes: the prompt that asks for a
//! fix, the reading of the answer, and the checks on a proposed fix.
//!
//! Running the assistant is left to the caller.

use crate::pattern::language_name;
use crate::review::{ReviewViolation, ReviewViolationView};
use crate::text::{
    append_decimal, contains, decimal_text, find_first, has_prefix, join, join_rows, lines,
    lowercase, rows, same_chars, same_text, split_lines, starts_with, string_from_range, to_chars,
    to_lowercase, trim, trim_chars,
};
use core::convert::Infallible;
use vstd::prelude::*;
use vstd::string::StringExecFns;

verus! {

/// What is known about the assistant's command-line tool.
pub struct ClaudeCodeIntegration {
    pub available: bool,
    pub version: Option<String>,
    pub command: String,
}

/// A request for the fix of one violation.
#[derive(Debug)]
pub struct FixRequest {
    pub file_path: String,
    pub line_number: usize,
    pub original_code: String,
    pub violation_description: String,
    pub fix_suggestion: String,
    pub language: String,
}

/// The outcome of a request for a fix.
#[derive(Debug)]
pub struct FixResult {
    pub success: bool,
    pub fixed_code: Option<String>,
    pub error_message: Option<String>,
    /// How far the fixed code can be trusted, in percent.
    pub confidence: u8,
}

/// Access to the hosting service.
pub struct GitHubIntegration {
    token: Option<String>,
}

/// The mathematical value of a [`FixRequest`].
pub struct FixRequestView {
    pub file_path: Seq<char>,
    pub line_number: usize,
    pub original_code: Seq<char>,
    pub violation_description: Seq<char>,
    pub fix_suggestion: Seq<char>,
    pub language: Seq<char>,
}

/// The mathematical value of a [`FixResult`].
pub struct FixResultView {
    pub success: bool,
    pub fixed_code: Option<Seq<char>>,
    pub error_message: Option<Seq<char>>,
    pub confidence: u8,
}

impl View for FixRequest {
    type V = FixRequestView;

    open spec fn view(&self) -> FixRequestView {
        FixRequestView {
            file_path: self.file_path@,
            line_number: self.line_number,
            original_code: self.original_code@,
            violation_description: self.violation_description@,
            fix_suggestion: self.fix_suggestion@,
            language: self.language@,
        }
    }
}

impl View for FixResult {
    type V = FixResultView;

    open spec fn view(&self) -> FixResultView {
        FixResultView {
            success: self.success,
            fixed_code: self.fixed_code.deep_view(),
            error_message: self.error_message.deep_view(),
            confidence: self.confidence,
        }
    }
}

impl Clone for FixRequest {
    fn clone(&self) -> (out: Self)
        ensures
            out@ == self@,
    {
        FixRequest {
            file_path: self.file_path.clone(),
            line_number: self.line_number,
            original_code: self.original_code.clone(),
            violation_description: self.violation_description.clone(),
            fix_suggestion: self.fix_suggestion.clone(),
            language: self.language.clone(),
        }
    }
}

impl Clone for FixResult {
    fn clone(&self) -> (out: Self)
        ensures
            out@ == self@,
    {
        FixResult {
            success: self.success,
            fixed_code: match &self.fixed_code {
                Some(code) => Some(code.clone()),
                None => None,
            },
            error_message: match &self.error_message {
                Some(message) => Some(message.clone()),
                None => None,
            },
            confidence: self.confidence,
        }
    }
}

/// The prompt that asks the assistant for the fix of one violation.
pub open spec fn fix_prompt(request: FixRequestView) -> Seq<char> {
    "Fix this "@ + request.language + " code violation:\n\nFile: "@ + request.file_path
        + "\nLine: "@ + decimal_text(request.line_number as nat) + "\n\nIssue: "@
        + request.violation_description + "\nSuggestion: "@ + request.fix_suggestion
        + "\n\nOriginal code:\n```"@ + request.language + "\n"@ + request.original_code
        + "\n```\n\nPlease provide ONLY the fixed code without explanations. Return the corrected line(s) that should replace the original code."@
}

/// What a pass over the lines of an answer has found of its first fenced
/// block of code.
pub struct Fence {
    /// A line that opens a fence was seen.
    pub opened: bool,
    /// The line that closes it was seen too.
    pub closed: bool,
    /// The lines between the two.
    pub code: Seq<Seq<char>>,
}

/// What is found of the first fenced block in the given lines. A fence is a
/// line that begins with three backticks.
pub open spec fn fence_of(lines: Seq<Seq<char>>) -> Fence
    decreases lines.len(),
{
    if lines.len() == 0 {
        Fence { opened: false, closed: false, code: Seq::empty() }
    } else {
        let before = fence_of(lines.drop_last());
        if before.closed {
            before
        } else if has_prefix(lines.last(), "```"@) {
            if before.opened {
                Fence { closed: true, ..before }
            } else {
                Fence { opened: true, ..before }
            }
        } else if before.opened {
            Fence { code: before.code.push(lines.last()), ..before }
        } else {
            before
        }
    }
}

/// The code of an answer: the lines of its first fenced block, or the whole
/// answer if it has no such lines.
pub open spec fn fenced_code(response: Seq<char>) -> Seq<char> {
    let code = fence_of(lines(response)).code;
    if code.len() == 0 {
        response
    } else {
        join(code, "\n"@)
    }
}

/// Whether code looks structured: it defines a function or a module.
pub open spec fn looks_structured(code: Seq<char>) -> bool {
    contains(code, "def "@) || contains(code, "function "@) || contains(code, "defmodule "@)
}

/// Whether code has an opening and a closing parenthesis.
pub open spec fn has_parentheses(code: Seq<char>) -> bool {
    contains(code, "("@) && contains(code, ")"@)
}

/// Whether code reads like an explanation.
pub open spec fn looks_explained(code: Seq<char>) -> bool {
    contains(lowercase(code), "here's"@) || contains(lowercase(code), "this code"@)
}

/// The confidence in fixed code, in percent: 70, ten more for structure, ten
/// more for parentheses, thirty less for an explanation.
pub open spec fn confidence_of(code: Seq<char>) -> u8 {
    let gained = 70 + (if looks_structured(code) {
        10int
    } else {
        0int
    }) + (if has_parentheses(code) {
        10int
    } else {
        0int
    });
    (if looks_explained(code) {
        gained - 30
    } else {
        gained
    }) as u8
}

/// The result for an answer of the assistant.
pub open spec fn response_result(response: Seq<char>) -> FixResultView {
    let cleaned = trim(response);
    if cleaned.len() == 0 {
        FixResultView {
            success: false,
            fixed_code: None,
            error_message: Some("Empty response from the assistant"@),
            confidence: 0,
        }
    } else {
        let code = if contains(cleaned, "```"@) {
            fenced_code(cleaned)
        } else {
            cleaned
        };
        FixResultView {
            success: true,
            fixed_code: Some(code),
            error_message: None,
            confidence: confidence_of(code),
        }
    }
}

/// How deep the brackets are nested after the code; `None` if a closing
/// bracket came where none was open.
pub open spec fn depth_after(code: Seq<char>, open: char, close: char) -> Option<nat>
    decreases code.len(),
{
    if code.len() == 0 {
        Some(0nat)
    } else {
        match depth_after(code.drop_last(), open, close) {
            None => None,
            Some(depth) => if code.last() == open {
                Some(depth + 1)
            } else if code.last() == close {
                if depth == 0 {
                    None
                } else {
                    Some((depth - 1) as nat)
                }
            } else {
                Some(depth)
            },
        }
    }
}

/// Whether every bracket of the code is closed, and none closed before it
/// was opened.
pub open spec fn balanced(code: Seq<char>, open: char, close: char) -> bool {
    depth_after(code, open, close) == Some(0nat)
}

/// Whether code passes the bracket checks of a language, given by its
/// lower-case name. Code of an unknown language passes.
pub open spec fn syntax_ok(language: Seq<char>, code: Seq<char>) -> bool {
    if language == "elixir"@ || language == "javascript"@ || language == "typescript"@ || language
        == "rust"@ {
        balanced(code, '(', ')') && balanced(code, '{', '}') && balanced(code, '[', ']')
    } else if language == "python"@ {
        balanced(code, '(', ')') && balanced(code, '[', ']')
    } else {
        true
    }
}

/// Whether a fix is worth applying: it is not blank, it differs from the
/// original by more than whitespace at the ends, and it passes the bracket
/// checks of its language.
pub open spec fn fix_is_valid(original: Seq<char>, fixed: Seq<char>, language: Seq<char>) -> bool {
    trim(fixed).len() > 0 && trim(original) != trim(fixed) && syntax_ok(lowercase(language), fixed)
}

/// The lines after the fixes are applied in order. A fix replaces the line
/// with its number, counted from one; a fix for a line that is not there is
/// skipped. Where several fixes name one line, the last stands.
pub open spec fn fixed_lines(lines: Seq<Seq<char>>, fixes: Seq<(usize, Seq<char>)>) -> Seq<
    Seq<char>,
>
    decreases fixes.len(),
{
    if fixes.len() == 0 {
        lines
    } else {
        let before = fixed_lines(lines, fixes.drop_last());
        let fix = fixes.last();
        if 1 <= fix.0 <= before.len() {
            before.update(fix.0 - 1, fix.1)
        } else {
            before
        }
    }
}

/// The text of a file after fixes are applied to its lines. The lines are
/// joined by newlines, with none after the last.
pub open spec fn fixed_text(content: Seq<char>, fixes: Seq<(usize, Seq<char>)>) -> Seq<char> {
    join(fixed_lines(lines(content), fixes), "\n"@)
}


/// Tests whether a text contains a phrase.
pub fn text_contains(text: &Vec<char>, phrase: &str) -> (out: bool)
    ensures
        out == contains(text@, phrase@),
{
    let needle = to_chars(phrase);
    find_first(text, &needle).is_some()
}

/// Computes the confidence in fixed code, in percent.
pub fn confidence_percent(code: &str) -> (out: u8)
    ensures
        out == confidence_of(code@),
{
    let chars = to_chars(code);
    let lowered = to_chars(to_lowercase(code).as_str());
    let mut confidence: u8 = 70;
    if text_contains(&chars, "def ") || text_contains(&chars, "function ") || text_contains(
        &chars,
        "defmodule ",
    ) {
        confidence += 10;
    }
    if text_contains(&chars, "(") && text_contains(&chars, ")") {
        confidence += 10;
    }
    if text_contains(&lowered, "here's") || text_contains(&lowered, "this code") {
        confidence -= 30;
    }
    confidence
}

/// Tests whether the brackets of a text are balanced.
pub fn brackets_balanced(chars: &Vec<char>, open: char, close: char) -> (out: bool)
    ensures
        out == balanced(chars@, open, close),
{
    let mut depth: usize = 0;
    let mut i: usize = 0;
    assert(chars@.subrange(0, 0) =~= Seq::empty());
    while i < chars.len()
        invariant
            i <= chars.len(),
            depth <= i,
            depth_after(chars@.subrange(0, i as int), open, close) == Some(depth as nat),
        decreases chars.len() - i,
    {
        proof {
            let upto = chars@.subrange(0, i + 1);
            assert(upto.drop_last() =~= chars@.subrange(0, i as int));
            assert(upto.last() == chars@[i as int]);
        }
        if chars[i] == open {
            depth += 1;
        } else if chars[i] == close {
            if depth == 0 {
                proof {
                    lemma_depth_stays_none(chars@, i + 1, open, close);
                }
                return false;
            }
            depth -= 1;
        }
        i += 1;
    }
    assert(chars@.subrange(0, i as int) =~= chars@);
    depth == 0
}

/// Once a closing bracket has come too early, no later text mends it.
pub proof fn lemma_depth_stays_none(code: Seq<char>, n: int, open: char, close: char)
    requires
        0 <= n <= code.len(),
        depth_after(code.subrange(0, n), open, close) is None,
    ensures
        depth_after(code, open, close) is None,
    decreases code.len() - n,
{
    if n < code.len() {
        assert(code.subrange(0, n + 1).drop_last() =~= code.subrange(0, n));
        lemma_depth_stays_none(code, n + 1, open, close);
    } else {
        assert(code.subrange(0, n) =~= code);
    }
}

impl ClaudeCodeIntegration {
    /// What is known when the tool has not been found.
    pub fn unavailable() -> (out: Self)
        ensures
            !out.available,
            out.version is None,
            out.command@ == Seq::<char>::empty(),
    {
        ClaudeCodeIntegration { available: false, version: None, command: String::new() }
    }

    /// The result of a request that could not be made because the tool is
    /// not there.
    pub fn unavailable_result() -> (out: FixResult)
        ensures
            out@ == (FixResultView {
                success: false,
                fixed_code: None,
                error_message: Some("Assistant CLI not available"@),
                confidence: 0,
            }),
    {
        FixResult {
            success: false,
            fixed_code: None,
            error_message: Some("Assistant CLI not available".to_string()),
            confidence: 0,
        }
    }

    /// The result of a request during which the tool failed, with what it
    /// said.
    pub fn failed_result(error: &str) -> (out: FixResult)
        ensures
            out@ == (FixResultView {
                success: false,
                fixed_code: None,
                error_message: Some("Assistant execution failed: "@ + error@),
                confidence: 0,
            }),
    {
        let mut message = "Assistant execution failed: ".to_string();
        message.append(error);
        FixResult { success: false, fixed_code: None, error_message: Some(message), confidence: 0 }
    }

    /// The prompt that asks for the fix of one violation.
    pub fn create_fix_prompt(&self, request: &FixRequest) -> (out: String)
        ensures
            out@ == fix_prompt(request@),
    {
        let mut out = "Fix this ".to_string();
        out.append(request.language.as_str());
        out.append(" code violation:\n\nFile: ");
        out.append(request.file_path.as_str());
        out.append("\nLine: ");
        append_decimal(&mut out, request.line_number);
        out.append("\n\nIssue: ");
        out.append(request.violation_description.as_str());
        out.append("\nSuggestion: ");
        out.append(request.fix_suggestion.as_str());
        out.append("\n\nOriginal code:\n```");
        out.append(request.language.as_str());
        out.append("\n");
        out.append(request.original_code.as_str());
        out.append(
            "\n```\n\nPlease provide ONLY the fixed code without explanations. Return the corrected line(s) that should replace the original code.",
        );
        out
    }

    /// The code of an answer: the lines of its first fenced block, or the
    /// whole answer if it has no such lines.
    pub fn extract_code_from_markdown(&self, response: &str) -> (out: String)
        ensures
            out@ == fenced_code(response@),
    {
        let chars = to_chars(response);
        let all = split_lines(&chars);
        let mut opened = false;
        let mut code: Vec<Vec<char>> = Vec::new();
        let mut i: usize = 0;
        let mut closed = false;
        proof {
            assert(rows(all@).subrange(0, 0) =~= Seq::empty());
            assert(rows(code@) =~= Seq::empty());
        }
        while i < all.len() && !closed
            invariant
                i <= all.len(),
                rows(all@) == lines(response@),
                fence_of(rows(all@).subrange(0, i as int)) == (Fence {
                    opened,
                    closed,
                    code: rows(code@),
                }),
            decreases all.len() - i,
        {
            proof {
                let upto = rows(all@).subrange(0, i + 1);
                assert(upto.drop_last() =~= rows(all@).subrange(0, i as int));
                assert(upto.last() == all@[i as int]@);
            }
            if starts_with(&all[i], "```") {
                if opened {
                    closed = true;
                } else {
                    opened = true;
                }
            } else if opened {
                let ghost before = rows(code@);
                let line = crate::text::copy_range(&all[i], 0, all[i].len());
                assert(line@ =~= all@[i as int]@);
                code.push(line);
                assert(rows(code@) =~= before.push(line@));
            }
            i += 1;
        }
        proof {
            lemma_fence_stays_closed(rows(all@), i as int);
        }
        if code.len() == 0 {
            response.to_string()
        } else {
            join_rows(&code, "\n")
        }
    }

    /// The confidence in fixed code, in percent.
    pub fn calculate_confidence(&self, fixed_code: &str) -> (out: u8)
        ensures
            out == confidence_of(fixed_code@),
    {
        confidence_percent(fixed_code)
    }

    /// Reads an answer of the assistant.
    pub fn parse_claude_response(&self, response: &str, _request: &FixRequest) -> (out: Result<
        FixResult,
        Infallible,
    >)
        ensures
            out matches Ok(result) && result@ == response_result(response@),
    {
        let chars = to_chars(response);
        let cleaned = trim_chars(&chars);
        if cleaned.len() == 0 {
            return Ok(
                FixResult {
                    success: false,
                    fixed_code: None,
                    error_message: Some("Empty response from the assistant".to_string()),
                    confidence: 0,
                },
            );
        }
        let text = string_from_range(&cleaned, 0, cleaned.len());
        assert(text@ =~= cleaned@);
        let code = if text_contains(&cleaned, "```") {
            self.extract_code_from_markdown(text.as_str())
        } else {
            text
        };
        let confidence = confidence_percent(code.as_str());
        Ok(FixResult { success: true, fixed_code: Some(code), error_message: None, confidence })
    }

    /// Tests whether a fix is worth applying.
    pub fn validate_fix(&self, original: &str, fixed: &str, language: &str) -> (out: Result<
        bool,
        Infallible,
    >)
        ensures
            out == Ok::<bool, Infallible>(fix_is_valid(original@, fixed@, language@)),
    {
        let fixed_chars = to_chars(fixed);
        let fixed_trimmed = trim_chars(&fixed_chars);
        if fixed_trimmed.len() == 0 {
            return Ok(false);
        }
        let original_trimmed = trim_chars(&to_chars(original));
        if same_chars(&original_trimmed, &fixed_trimmed) {
            return Ok(false);
        }
        let lowered = to_lowercase(language);
        let name = lowered.as_str();
        proof {
            reveal_strlit("python");
            reveal_strlit("rust");
            assert("python"@.len() == 6 && "rust"@.len() == 4);
        }
        if same_text(name, "elixir") {
            self.validate_elixir_syntax(fixed)
        } else if same_text(name, "javascript") || same_text(name, "typescript") {
            self.validate_javascript_syntax(fixed)
        } else if same_text(name, "python") {
            self.validate_python_syntax(fixed)
        } else if same_text(name, "rust") {
            self.validate_rust_syntax(fixed)
        } else {
            Ok(true)
        }
    }

    /// Tests whether parentheses, braces and square brackets are balanced.
    pub fn validate_elixir_syntax(&self, code: &str) -> (out: Result<bool, Infallible>)
        ensures
            out == Ok::<bool, Infallible>(
                balanced(code@, '(', ')') && balanced(code@, '{', '}') && balanced(code@, '[', ']'),
            ),
    {
        let parens = self.check_balanced_brackets(code, '(', ')');
        let braces = self.check_balanced_brackets(code, '{', '}');
        let brackets = self.check_balanced_brackets(code, '[', ']');
        Ok(parens && braces && brackets)
    }

    /// Tests whether parentheses, braces and square brackets are balanced.
    pub fn validate_javascript_syntax(&self, code: &str) -> (out: Result<bool, Infallible>)
        ensures
            out == Ok::<bool, Infallible>(
                balanced(code@, '(', ')') && balanced(code@, '{', '}') && balanced(code@, '[', ']'),
            ),
    {
        let parens = self.check_balanced_brackets(code, '(', ')');
        let braces = self.check_balanced_brackets(code, '{', '}');
        let brackets = self.check_balanced_brackets(code, '[', ']');
        Ok(parens && braces && brackets)
    }

    /// Tests whether parentheses and square brackets are balanced.
    pub fn validate_python_syntax(&self, code: &str) -> (out: Result<bool, Infallible>)
        ensures
            out == Ok::<bool, Infallible>(balanced(code@, '(', ')') && balanced(code@, '[', ']')),
    {
        let parens = self.check_balanced_brackets(code, '(', ')');
        let brackets = self.check_balanced_brackets(code, '[', ']');
        Ok(parens && brackets)
    }

    /// Tests whether parentheses, braces and square brackets are balanced.
    pub fn validate_rust_syntax(&self, code: &str) -> (out: Result<bool, Infallible>)
        ensures
            out == Ok::<bool, Infallible>(
                balanced(code@, '(', ')') && balanced(code@, '{', '}') && balanced(code@, '[', ']'),
            ),
    {
        let parens = self.check_balanced_brackets(code, '(', ')');
        let braces = self.check_balanced_brackets(code, '{', '}');
        let brackets = self.check_balanced_brackets(code, '[', ']');
        Ok(parens && braces && brackets)
    }

    /// Tests whether every `open` in the code is closed by a later `close`,
    /// and no `close` comes where nothing is open.
    pub fn check_balanced_brackets(&self, code: &str, open: char, close: char) -> (out: bool)
        ensures
            out == balanced(code@, open, close),
    {
        let chars = to_chars(code);
        brackets_balanced(&chars, open, close)
    }

    /// The text of a file after fixes are applied to its lines.
    pub fn apply_fixes(&self, content: &str, fixes: &Vec<(usize, String)>) -> (out: String)
        ensures
            out@ == fixed_text(content@, fixes.deep_view()),
    {
        let chars = to_chars(content);
        let mut all = split_lines(&chars);
        let ghost start = rows(all@);
        let ghost list = fixes.deep_view();
        let mut i: usize = 0;
        assert(list.subrange(0, 0) =~= Seq::empty());
        while i < fixes.len()
            invariant
                i <= fixes.len(),
                list == fixes.deep_view(),
                list.len() == fixes.len(),
                rows(all@) == fixed_lines(start, list.subrange(0, i as int)),
            decreases fixes.len() - i,
        {
            proof {
                let upto = list.subrange(0, i + 1);
                assert(upto.drop_last() =~= list.subrange(0, i as int));
                assert(upto.last() == fixes[i as int].deep_view());
            }
            let number = fixes[i].0;
            if 1 <= number && number <= all.len() {
                let ghost before = rows(all@);
                let line = to_chars(fixes[i].1.as_str());
                all.set(number - 1, line);
                assert(rows(all@) =~= before.update(number - 1, line@));
            }
            i += 1;
        }
        assert(list.subrange(0, i as int) =~= list);
        join_rows(&all, "\n")
    }
}

/// Once the fence is closed, later lines change nothing.
pub proof fn lemma_fence_stays_closed(lines: Seq<Seq<char>>, n: int)
    requires
        0 <= n <= lines.len(),
        n < lines.len() ==> fence_of(lines.subrange(0, n)).closed,
    ensures
        fence_of(lines) == fence_of(lines.subrange(0, n)),
    decreases lines.len() - n,
{
    if n < lines.len() {
        assert(lines.subrange(0, n + 1).drop_last() =~= lines.subrange(0, n));
        if n + 1 < lines.len() {
            lemma_fence_stays_closed(lines, n + 1);
        } else {
            assert(lines.subrange(0, n + 1) =~= lines);
        }
    } else {
        assert(lines.subrange(0, n) =~= lines);
    }
}

impl GitHubIntegration {
    /// Access with the given token, or without one.
    pub fn with_token(token: Option<String>) -> (out: Self)
        ensures
            out.has_token() == token.is_some(),
    {
        GitHubIntegration { token }
    }

    /// Whether a token is held.
    pub closed spec fn has_token(&self) -> bool {
        self.token.is_some()
    }

    /// Whether requests can be made in the user's name.
    pub fn is_authenticated(&self) -> (out: bool)
        ensures
            out == self.has_token(),
    {
        self.token.is_some()
    }
}


/// What is to be done with the answer to a request for a fix.
#[derive(Debug, Clone, Copy, PartialEq, Eq, Structural)]
pub enum FixOutcome {
    /// The request failed.
    Failed,
    /// The answer is not trusted enough.
    LowConfidence,
    /// The answer came without code.
    NoFix,
    /// The code of the answer did not pass the checks.
    Invalid,
    /// The code can be applied.
    Ready,
}

/// What is to be done with a result, given the least confidence that is
/// accepted, in percent, and whether the fixed code passed the checks. A
/// failure counts before low confidence, low confidence before missing code,
/// and missing code before the checks.
pub open spec fn outcome_of(result: FixResultView, least_confidence: u8, valid: bool) -> FixOutcome {
    if !result.success {
        FixOutcome::Failed
    } else if result.confidence < least_confidence {
        FixOutcome::LowConfidence
    } else if result.fixed_code is None {
        FixOutcome::NoFix
    } else if !valid {
        FixOutcome::Invalid
    } else {
        FixOutcome::Ready
    }
}

/// The request for the fix of a violation.
pub open spec fn request_for(violation: ReviewViolationView) -> FixRequestView {
    FixRequestView {
        file_path: violation.file_path,
        line_number: violation.line_number,
        original_code: violation.content,
        violation_description: violation.rule.description,
        fix_suggestion: violation.fix_suggestion,
        language: language_name(violation.language),
    }
}

/// How a batch of fixes went: how many were applied, how many requests
/// failed, and how many fixes were passed over.
pub struct Tally {
    pub fixed: usize,
    pub failed: usize,
    pub skipped: usize,
}

/// How many of the entries are marked.
pub open spec fn count_true(marks: Seq<bool>) -> nat
    decreases marks.len(),
{
    if marks.len() == 0 {
        0
    } else {
        count_true(marks.drop_last()) + (if marks.last() {
            1nat
        } else {
            0nat
        })
    }
}

/// No more entries are marked than there are.
pub proof fn lemma_count_true(marks: Seq<bool>)
    ensures
        count_true(marks) <= marks.len(),
    decreases marks.len(),
{
    if marks.len() > 0 {
        lemma_count_true(marks.drop_last());
    }
}

impl ClaudeCodeIntegration {
    /// The request for the fix of a violation.
    pub fn create_fix_request(violation: &ReviewViolation) -> (out: FixRequest)
        ensures
            out@ == request_for(violation@),
    {
        FixRequest {
            file_path: violation.file_path.clone(),
            line_number: violation.line_number,
            original_code: violation.content.clone(),
            violation_description: violation.rule.description.clone(),
            fix_suggestion: violation.fix_suggestion.clone(),
            language: violation.language.to_string(),
        }
    }

    /// Decides what is to be done with the answer to a request.
    pub fn decide(result: &FixResult, least_confidence: u8, valid: bool) -> (out: FixOutcome)
        ensures
            out == outcome_of(result@, least_confidence, valid),
    {
        if !result.success {
            FixOutcome::Failed
        } else if result.confidence < least_confidence {
            FixOutcome::LowConfidence
        } else if result.fixed_code.is_none() {
            FixOutcome::NoFix
        } else if !valid {
            FixOutcome::Invalid
        } else {
            FixOutcome::Ready
        }
    }

    /// Sums up a batch from two marks for each request: whether its fix was
    /// applied, and whether the request succeeded. A request that succeeded
    /// and whose fix was not applied was skipped.
    pub fn tally(marks: &Vec<(bool, bool)>) -> (out: Tally)
        ensures
            out.fixed == count_true(marks@.map_values(|mark: (bool, bool)| mark.0)),
            out.failed == count_true(marks@.map_values(|mark: (bool, bool)| !mark.1)),
            out.skipped == count_true(marks@.map_values(|mark: (bool, bool)| !mark.0 && mark.1)),
    {
        let ghost applied = marks@.map_values(|mark: (bool, bool)| mark.0);
        let ghost failed = marks@.map_values(|mark: (bool, bool)| !mark.1);
        let ghost skipped = marks@.map_values(|mark: (bool, bool)| !mark.0 && mark.1);
        let mut out = Tally { fixed: 0, failed: 0, skipped: 0 };
        let mut i: usize = 0;
        proof {
            assert(applied.subrange(0, 0) =~= Seq::empty());
            assert(failed.subrange(0, 0) =~= Seq::empty());
            assert(skipped.subrange(0, 0) =~= Seq::empty());
        }
        while i < marks.len()
            invariant
                i <= marks.len(),
                applied == marks@.map_values(|mark: (bool, bool)| mark.0),
                failed == marks@.map_values(|mark: (bool, bool)| !mark.1),
                skipped == marks@.map_values(|mark: (bool, bool)| !mark.0 && mark.1),
                out.fixed == count_true(applied.subrange(0, i as int)),
                out.failed == count_true(failed.subrange(0, i as int)),
                out.skipped == count_true(skipped.subrange(0, i as int)),
            decreases marks.len() - i,
        {
            proof {
                assert(applied.subrange(0, i + 1).drop_last() =~= applied.subrange(0, i as int));
                assert(failed.subrange(0, i + 1).drop_last() =~= failed.subrange(0, i as int));
                assert(skipped.subrange(0, i + 1).drop_last() =~= skipped.subrange(0, i as int));
                lemma_count_true(applied.subrange(0, i as int));
                lemma_count_true(failed.subrange(0, i as int));
                lemma_count_true(skipped.subrange(0, i as int));
            }
            let mark = marks[i];
            if mark.0 {
                out.fixed += 1;
            }
            if !mark.1 {
                out.failed += 1;
            }
            if !mark.0 && mark.1 {
                out.skipped += 1;
            }
            i += 1;
        }
        proof {
            assert(applied.subrange(0, i as int) =~= applied);
            assert(failed.subrange(0, i as int) =~= failed);
            assert(skipped.subrange(0, i as int) =~= skipped);
        }
        out
    }
}

} // verus!
