//! The detection engine: matching the added lines of a diff against the
//! rules of a registry.

use crate::diff::{ChangedLine, ChangedLineView};
use crate::matcher::{compile, compiled, count_matches, finds_match, is_match, match_count};
use crate::pattern::{reaches, AntiPattern, AntiPatternView, DetectionMethod,
    DetectionMethodView, Fraction, Language, Severity};
use crate::registry::{applies_to, cached, rule_extension, PatternRegistry, RegistryView};
use crate::text::{
    clone_strings, extension, lowercase, path_extension, same_text, to_lowercase,
};
use core::convert::Infallible;
use regex::Regex;
use vstd::prelude::*;
use vstd::string::StrSliceExecFns;

verus! {

/// The confidence, in percent, that the engine gives to every match.
pub const MATCH_CONFIDENCE: u8 = 85;

/// A rule that matched a line.
#[derive(Debug)]
pub struct ReviewViolation {
    /// A copy of the rule.
    pub rule: AntiPattern,
    pub file_path: String,
    pub line_number: usize,
    pub content: String,
    /// The severity of the rule.
    pub severity: Severity,
    /// The language of the file, by its extension.
    pub language: Language,
    /// The rule's advice on the fix.
    pub fix_suggestion: String,
    /// Whether the rule lets an assistant apply the fix.
    pub auto_fixable: bool,
    pub context_before: Vec<String>,
    pub context_after: Vec<String>,
    /// How sure the engine is of the match, in percent.
    pub confidence: u8,
}

/// The counts over a list of violations.
#[derive(Debug)]
pub struct ReviewSummary {
    pub total_violations: usize,
    pub critical_count: usize,
    pub major_count: usize,
    pub warning_count: usize,
    /// The paths of the files with violations, in ascending order, each once.
    pub files_affected: Vec<String>,
    pub auto_fixable_count: usize,
}

/// The mathematical value of a [`ReviewViolation`].
pub struct ReviewViolationView {
    pub rule: AntiPatternView,
    pub file_path: Seq<char>,
    pub line_number: usize,
    pub content: Seq<char>,
    pub severity: Severity,
    pub language: Language,
    pub fix_suggestion: Seq<char>,
    pub auto_fixable: bool,
    pub context_before: Seq<Seq<char>>,
    pub context_after: Seq<Seq<char>>,
    pub confidence: u8,
}

/// The mathematical value of a [`ReviewSummary`].
pub struct ReviewSummaryView {
    pub total_violations: usize,
    pub critical_count: usize,
    pub major_count: usize,
    pub warning_count: usize,
    pub files_affected: Seq<Seq<char>>,
    pub auto_fixable_count: usize,
}

impl View for ReviewViolation {
    type V = ReviewViolationView;

    open spec fn view(&self) -> ReviewViolationView {
        ReviewViolationView {
            rule: self.rule@,
            file_path: self.file_path@,
            line_number: self.line_number,
            content: self.content@,
            severity: self.severity,
            language: self.language,
            fix_suggestion: self.fix_suggestion@,
            auto_fixable: self.auto_fixable,
            context_before: self.context_before.deep_view(),
            context_after: self.context_after.deep_view(),
            confidence: self.confidence,
        }
    }
}

impl DeepView for ReviewViolation {
    type V = ReviewViolationView;

    open spec fn deep_view(&self) -> ReviewViolationView {
        self@
    }
}

impl View for ReviewSummary {
    type V = ReviewSummaryView;

    open spec fn view(&self) -> ReviewSummaryView {
        ReviewSummaryView {
            total_violations: self.total_violations,
            critical_count: self.critical_count,
            major_count: self.major_count,
            warning_count: self.warning_count,
            files_affected: self.files_affected.deep_view(),
            auto_fixable_count: self.auto_fixable_count,
        }
    }
}

impl Clone for ReviewViolation {
    fn clone(&self) -> (out: Self)
        ensures
            out@ == self@,
    {
        ReviewViolation {
            rule: self.rule.clone(),
            file_path: self.file_path.clone(),
            line_number: self.line_number,
            content: self.content.clone(),
            severity: self.severity,
            language: self.language,
            fix_suggestion: self.fix_suggestion.clone(),
            auto_fixable: self.auto_fixable,
            context_before: clone_strings(&self.context_before),
            context_after: clone_strings(&self.context_after),
            confidence: self.confidence,
        }
    }
}

/// Copies a list of violations.
pub fn clone_violations(list: &Vec<ReviewViolation>) -> (out: Vec<ReviewViolation>)
    ensures
        out.deep_view() == list.deep_view(),
{
    let mut out: Vec<ReviewViolation> = Vec::new();
    let mut i: usize = 0;
    while i < list.len()
        invariant
            i <= list.len(),
            out.deep_view() == list.deep_view().subrange(0, i as int),
        decreases list.len() - i,
    {
        let ghost before = out.deep_view();
        let item = list[i].clone();
        out.push(item);
        assert(out.deep_view() =~= before.push(item@));
        i += 1;
    }
    assert(list.deep_view().subrange(0, i as int) =~= list.deep_view());
    out
}

/// The language that a lower-case extension stands for when a file is
/// labelled.
pub open spec fn language_of_extension(ext: Seq<char>) -> Option<Language> {
    if ext == "ex"@ || ext == "exs"@ {
        Some(Language::Elixir)
    } else if ext == "js"@ || ext == "jsx"@ || ext == "mjs"@ || ext == "cjs"@ {
        Some(Language::JavaScript)
    } else if ext == "ts"@ || ext == "tsx"@ {
        Some(Language::TypeScript)
    } else if ext == "py"@ || ext == "pyw"@ || ext == "pyi"@ {
        Some(Language::Python)
    } else if ext == "rs"@ {
        Some(Language::Rust)
    } else if ext == "zig"@ {
        Some(Language::Zig)
    } else if ext == "sql"@ || ext == "psql"@ || ext == "mysql"@ {
        Some(Language::Sql)
    } else {
        None
    }
}

/// The language of a file, by the lower-case form of its extension.
pub open spec fn detected_language(path: Seq<char>) -> Option<Language> {
    match extension(path) {
        Some(ext) => language_of_extension(lowercase(ext)),
        None => None,
    }
}

/// The language that violations in a file are labelled with: the detected
/// one, or JavaScript where none is detected.
pub open spec fn label_language(path: Seq<char>) -> Language {
    match detected_language(path) {
        Some(language) => language,
        None => Language::JavaScript,
    }
}

/// Whether a pattern, compiled for this one test, matches the text. A pattern
/// that does not compile matches nothing.
pub open spec fn pattern_matches(pattern: Seq<char>, text: Seq<char>) -> bool {
    match compiled(pattern) {
        Some(regex) => finds_match(regex, text),
        None => false,
    }
}

/// Whether the matches of a pattern in the text, counted against the number
/// of characters of the text, reach the threshold. A pattern that does not
/// compile reaches nothing.
pub open spec fn pattern_reaches(pattern: Seq<char>, threshold: Fraction, text: Seq<char>) -> bool {
    match compiled(pattern) {
        Some(regex) => reaches(threshold, match_count(regex, text), text.len()),
        None => false,
    }
}

/// What the test of a rule against a line of text comes to.
#[derive(Debug, Clone, Copy, PartialEq, Eq, Structural)]
pub enum Evaluation {
    /// The rule matches the line.
    Matched,
    /// The rule does not match the line.
    NotMatched,
    /// The rule is detected in a way that cannot be tested on a single line.
    Unsupported,
    /// The rule is disabled and was not tested.
    Disabled,
}

/// What the test of a rule against a line of text comes to, given the cache
/// of compiled expressions. A rule with a regular expression is tested with
/// the cached expression for its id if there is one, and else with its own
/// pattern. A ratio rule is tested with its own pattern. Other rules cannot
/// be tested on single lines.
pub open spec fn evaluation(cache: Seq<(Seq<char>, Regex)>, rule: AntiPatternView, text: Seq<char>)
    -> Evaluation {
    if !rule.enabled {
        Evaluation::Disabled
    } else {
        match rule.detection_method {
            DetectionMethodView::Regex { pattern } => if (match cached(cache, rule.id) {
                Some(regex) => finds_match(regex, text),
                None => pattern_matches(pattern, text),
            }) {
                Evaluation::Matched
            } else {
                Evaluation::NotMatched
            },
            DetectionMethodView::Ratio { threshold, pattern } => if pattern_reaches(
                pattern,
                threshold,
                text,
            ) {
                Evaluation::Matched
            } else {
                Evaluation::NotMatched
            },
            _ => Evaluation::Unsupported,
        }
    }
}

/// Whether a rule matches a line of text. Disabled rules match nothing, and
/// neither do rules that cannot be tested on single lines.
pub open spec fn rule_matches(
    cache: Seq<(Seq<char>, Regex)>,
    rule: AntiPatternView,
    text: Seq<char>,
) -> bool {
    evaluation(cache, rule, text) == Evaluation::Matched
}

/// The violation that is reported when `rule` matches `line` in the file at
/// `path`.
pub open spec fn violation_of(
    path: Seq<char>,
    line: ChangedLineView,
    rule: AntiPatternView,
    language: Language,
) -> ReviewViolationView {
    ReviewViolationView {
        rule,
        file_path: path,
        line_number: line.line_number,
        content: line.content,
        severity: rule.severity,
        language,
        fix_suggestion: rule.fix_suggestion,
        auto_fixable: rule.claude_code_fixable,
        context_before: line.context_before,
        context_after: line.context_after,
        confidence: MATCH_CONFIDENCE,
    }
}

/// The violations of one line: one for each of the rules that matches it, in
/// the order of the rules.
pub open spec fn line_violations(
    cache: Seq<(Seq<char>, Regex)>,
    path: Seq<char>,
    line: ChangedLineView,
    rules: Seq<AntiPatternView>,
    language: Language,
) -> Seq<ReviewViolationView>
    decreases rules.len(),
{
    if rules.len() == 0 {
        Seq::empty()
    } else {
        let before = line_violations(cache, path, line, rules.drop_last(), language);
        if rule_matches(cache, rules.last(), line.content) {
            before.push(violation_of(path, line, rules.last(), language))
        } else {
            before
        }
    }
}

/// The violations of the lines, line by line.
pub open spec fn lines_violations(
    cache: Seq<(Seq<char>, Regex)>,
    path: Seq<char>,
    lines: Seq<ChangedLineView>,
    rules: Seq<AntiPatternView>,
    language: Language,
) -> Seq<ReviewViolationView>
    decreases lines.len(),
{
    if lines.len() == 0 {
        Seq::empty()
    } else {
        lines_violations(cache, path, lines.drop_last(), rules, language) + line_violations(
            cache,
            path,
            lines.last(),
            rules,
            language,
        )
    }
}

/// The violations of the changed lines of one file: every line is tested
/// against the rules that the registry has for the file's extension.
pub open spec fn file_violations(
    registry: RegistryView,
    path: Seq<char>,
    lines: Seq<ChangedLineView>,
) -> Seq<ReviewViolationView> {
    lines_violations(
        registry.compiled,
        path,
        lines,
        registry.rules.filter(applies_to(rule_extension(path))),
        label_language(path),
    )
}

impl ReviewViolation {
    /// The violation that is reported when `pattern` matches `changed_line`
    /// in the file at `file_path`.
    pub fn new(
        file_path: &str,
        changed_line: &ChangedLine,
        pattern: &AntiPattern,
        language: Language,
    ) -> (out: Self)
        ensures
            out@ == violation_of(file_path@, changed_line@, pattern@, language),
    {
        ReviewViolation {
            rule: pattern.clone(),
            file_path: file_path.to_string(),
            line_number: changed_line.line_number,
            content: changed_line.content.clone(),
            severity: pattern.severity,
            language,
            fix_suggestion: pattern.fix_suggestion.clone(),
            auto_fixable: pattern.claude_code_fixable,
            context_before: clone_strings(&changed_line.context_before),
            context_after: clone_strings(&changed_line.context_after),
            confidence: MATCH_CONFIDENCE,
        }
    }
}

/// Tests whether `count` matches in a line of `length` characters reach the
/// threshold.
pub fn ratio_reached(threshold: Fraction, count: usize, length: usize) -> (out: bool)
    ensures
        out == reaches(threshold, count as nat, length as nat),
{
    if length == 0 || threshold.denominator == 0 {
        return false;
    }
    let matches: u128 = count as u128;
    let denominator: u128 = threshold.denominator as u128;
    let numerator: u128 = threshold.numerator as u128;
    let chars: u128 = length as u128;
    assert(matches * denominator <= 0xFFFF_FFFF_FFFF_FFFF * 0xFFFF_FFFF_FFFF_FFFF) by (nonlinear_arith)
        requires
            0 <= matches <= 0xFFFF_FFFF_FFFF_FFFF,
            0 <= denominator <= 0xFFFF_FFFF_FFFF_FFFF,
    ;
    assert(numerator * chars <= 0xFFFF_FFFF_FFFF_FFFF * 0xFFFF_FFFF_FFFF_FFFF) by (nonlinear_arith)
        requires
            0 <= numerator <= 0xFFFF_FFFF_FFFF_FFFF,
            0 <= chars <= 0xFFFF_FFFF_FFFF_FFFF,
    ;
    matches * denominator >= numerator * chars
}


/// The detection engine. It owns the registry whose rules it applies.
pub struct ReviewEngine {
    registry: PatternRegistry,
}

impl View for ReviewEngine {
    type V = RegistryView;

    closed spec fn view(&self) -> RegistryView {
        self.registry@
    }
}

/// Reads the language that a lower-case extension stands for.
pub fn language_for_extension(ext: &str) -> (out: Option<Language>)
    ensures
        out == language_of_extension(ext@),
{
    if same_text(ext, "ex") || same_text(ext, "exs") {
        Some(Language::Elixir)
    } else if same_text(ext, "js") || same_text(ext, "jsx") || same_text(ext, "mjs") || same_text(
        ext,
        "cjs",
    ) {
        Some(Language::JavaScript)
    } else if same_text(ext, "ts") || same_text(ext, "tsx") {
        Some(Language::TypeScript)
    } else if same_text(ext, "py") || same_text(ext, "pyw") || same_text(ext, "pyi") {
        Some(Language::Python)
    } else if same_text(ext, "rs") {
        Some(Language::Rust)
    } else if same_text(ext, "zig") {
        Some(Language::Zig)
    } else if same_text(ext, "sql") || same_text(ext, "psql") || same_text(ext, "mysql") {
        Some(Language::Sql)
    } else {
        None
    }
}

impl ReviewEngine {
    /// An engine with the built-in rules, their expressions compiled.
    pub fn new() -> (out: Self)
        ensures
            out@ == RegistryView::empty().add(crate::builtin::dynamic_atom_creation()).add(
                crate::builtin::long_parameter_list(),
            ).compile(),
            out@.wf(),
    {
        let mut registry = PatternRegistry::new();
        let _ = registry.load_built_in_patterns();
        ReviewEngine { registry }
    }

    /// An engine over a registry that the caller has built.
    pub fn with_registry(registry: PatternRegistry) -> (out: Self)
        ensures
            out@ == registry@,
    {
        ReviewEngine { registry }
    }

    /// The registry of the engine.
    pub fn registry(&self) -> (out: &PatternRegistry)
        ensures
            out@ == self@,
    {
        &self.registry
    }

    /// The language of a file, by its extension; `None` for an extension that
    /// stands for no language, and for a path without one.
    pub fn detect_language_from_path(&self, file_path: &str) -> (out: Option<Language>)
        ensures
            out == detected_language(file_path@),
    {
        match path_extension(file_path) {
            Some(ext) => {
                let lowered = to_lowercase(ext.as_str());
                language_for_extension(lowered.as_str())
            },
            None => None,
        }
    }

    /// Tests a pattern, compiled for this one test, against a text.
    pub fn test_pattern(pattern: &str, text: &str) -> (out: bool)
        ensures
            out == pattern_matches(pattern@, text@),
    {
        match compile(pattern) {
            Some(regex) => is_match(&regex, text),
            None => false,
        }
    }

    /// Tests whether the matches of a pattern in a text reach a threshold.
    pub fn test_ratio(pattern: &str, threshold: Fraction, text: &str) -> (out: bool)
        ensures
            out == pattern_reaches(pattern@, threshold, text@),
    {
        match compile(pattern) {
            Some(regex) => {
                let count = count_matches(&regex, text);
                let length = text.unicode_len();
                ratio_reached(threshold, count, length)
            },
            None => false,
        }
    }

    /// Tests a rule against a line of text.
    pub fn evaluate_rule(&self, pattern: &AntiPattern, text: &str) -> (out: Evaluation)
        ensures
            out == evaluation(self@.compiled, pattern@, text@),
    {
        if !pattern.enabled {
            return Evaluation::Disabled;
        }
        let matched = match &pattern.detection_method {
            DetectionMethod::Regex { pattern: expression } => {
                match self.registry.get_compiled_pattern(pattern.id.as_str()) {
                    Some(regex) => is_match(regex, text),
                    None => Self::test_pattern(expression.as_str(), text),
                }
            },
            DetectionMethod::Ratio { threshold, pattern: expression } => Self::test_ratio(
                expression.as_str(),
                *threshold,
                text,
            ),
            _ => {
                return Evaluation::Unsupported;
            },
        };
        if matched {
            Evaluation::Matched
        } else {
            Evaluation::NotMatched
        }
    }

    /// Tests whether a rule matches a line of text.
    pub fn rule_matches_line(&self, pattern: &AntiPattern, text: &str) -> (out: bool)
        ensures
            out == rule_matches(self@.compiled, pattern@, text@),
    {
        self.evaluate_rule(pattern, text) == Evaluation::Matched
    }

    /// Tests one changed line against one rule and reports the violation, if
    /// the rule matches.
    pub fn check_line_against_pattern(
        &self,
        file_path: &str,
        changed_line: &ChangedLine,
        pattern: &AntiPattern,
        language: Language,
    ) -> (out: Result<Option<ReviewViolation>, Infallible>)
        ensures
            out matches Ok(found) && found.deep_view() == (if rule_matches(
                self@.compiled,
                pattern@,
                changed_line@.content,
            ) {
                Some(violation_of(file_path@, changed_line@, pattern@, language))
            } else {
                None
            }),
    {
        if self.rule_matches_line(pattern, changed_line.content.as_str()) {
            Ok(Some(ReviewViolation::new(file_path, changed_line, pattern, language)))
        } else {
            Ok(None)
        }
    }

    /// Tests the changed lines of one file against the rules for the file's
    /// extension. The violations come line by line, and for each line in the
    /// order of the rules.
    pub fn review_changed_lines(&self, file_path: &str, changed_lines: &[ChangedLine]) -> (out:
        Result<Vec<ReviewViolation>, Infallible>)
        ensures
            out matches Ok(violations) && violations.deep_view() == file_violations(
                self@,
                file_path@,
                changed_lines.deep_view(),
            ),
    {
        Ok(self.scan_lines(file_path, changed_lines))
    }

    /// The violations of the changed lines of one file.
    pub(crate) fn scan_lines(&self, file_path: &str, changed_lines: &[ChangedLine]) -> (violations:
        Vec<ReviewViolation>)
        ensures
            violations.deep_view() == file_violations(
                self@,
                file_path@,
                changed_lines.deep_view(),
            ),
    {
        let mut violations: Vec<ReviewViolation> = Vec::new();
        let patterns = self.registry.get_patterns_for_file(file_path);
        let language = match self.detect_language_from_path(file_path) {
            Some(language) => language,
            None => Language::JavaScript,
        };
        let ghost cache = self@.compiled;
        let ghost rules = patterns.deep_view();
        let ghost lines = changed_lines.deep_view();
        proof {
            assert(violations.deep_view() =~= Seq::empty());
            assert(lines.subrange(0, 0) =~= Seq::empty());
        }
        let mut i: usize = 0;
        while i < changed_lines.len()
            invariant
                i <= changed_lines.len(),
                cache == self@.compiled,
                rules == patterns.deep_view(),
                lines == changed_lines.deep_view(),
                lines.len() == changed_lines.len(),
                violations.deep_view() == lines_violations(
                    cache,
                    file_path@,
                    lines.subrange(0, i as int),
                    rules,
                    language,
                ),
            decreases changed_lines.len() - i,
        {
            let line = &changed_lines[i];
            let ghost done = violations.deep_view();
            proof {
                let upto = lines.subrange(0, i + 1);
                assert(upto.drop_last() =~= lines.subrange(0, i as int));
                assert(upto.last() == line@);
                assert(rules.subrange(0, 0) =~= Seq::empty());
            }
            let mut j: usize = 0;
            while j < patterns.len()
                invariant
                    j <= patterns.len(),
                    cache == self@.compiled,
                    rules == patterns.deep_view(),
                    rules.len() == patterns.len(),
                    violations.deep_view() == done + line_violations(
                        cache,
                        file_path@,
                        line@,
                        rules.subrange(0, j as int),
                        language,
                    ),
                decreases patterns.len() - j,
            {
                let pattern = patterns[j];
                let ghost before = violations.deep_view();
                proof {
                    let upto = rules.subrange(0, j + 1);
                    assert(upto.drop_last() =~= rules.subrange(0, j as int));
                    assert(upto.last() == pattern@);
                }
                if self.rule_matches_line(pattern, line.content.as_str()) {
                    let violation = ReviewViolation::new(file_path, line, pattern, language);
                    violations.push(violation);
                    assert(violations.deep_view() =~= before.push(violation@));
                }
                j += 1;
            }
            proof {
                assert(rules.subrange(0, j as int) =~= rules);
            }
            i += 1;
        }
        proof {
            assert(lines.subrange(0, i as int) =~= lines);
        }
        violations
    }
}

} // verus!
