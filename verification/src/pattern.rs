//! The rule model: what an anti-pattern rule is.

use crate::text::{clone_strings, same_text};
use vstd::prelude::*;

verus! {

/// The languages that rules are written for.
#[derive(Debug, Clone, Copy, PartialEq, Eq, Hash, Structural)]
pub enum Language {
    Elixir,
    JavaScript,
    TypeScript,
    Python,
    Rust,
    Zig,
    Sql,
}

/// How serious a violation is. The declared order is `Critical < Major <
/// Warning`: the most serious level is the least.
#[derive(Debug, Clone, Copy, PartialEq, Eq, PartialOrd, Ord, Structural)]
pub enum Severity {
    Critical,
    Major,
    Warning,
}

/// A threshold for ratio rules, as the fraction `numerator / denominator`.
/// With a zero denominator it stands for no number, and nothing reaches it.
#[derive(Debug, Clone, Copy, PartialEq, Eq, Structural)]
pub struct Fraction {
    pub numerator: u64,
    pub denominator: u64,
}

/// How a rule decides whether a line violates it.
#[derive(Debug)]
#[allow(inconsistent_fields)]
pub enum DetectionMethod {
    /// The line matches a regular expression.
    Regex { pattern: String },
    /// Reserved for syntax-tree matching; never matches a line.
    Ast { pattern: String },
    /// Reserved for rules over a span of lines; never matches a single line.
    LineCount { threshold: usize, pattern: String },
    /// The matches of a regular expression, counted against the length of the
    /// line, reach a threshold.
    Ratio { threshold: Fraction, pattern: String },
    /// Reserved for rules with their own matcher; never matches a line.
    Custom { pattern: String },
}

/// A piece of code that shows a rule: what to avoid, what to write instead.
#[derive(Debug)]
pub struct CodeExample {
    pub bad: String,
    pub good: String,
    pub explanation: String,
}

/// A rule: a named anti-pattern of one language, with its severity, the way
/// to detect it and advice on the fix.
#[derive(Debug)]
pub struct AntiPattern {
    /// Identifies the rule within a registry.
    pub id: String,
    pub name: String,
    pub language: Language,
    pub severity: Severity,
    pub description: String,
    pub detection_method: DetectionMethod,
    pub fix_suggestion: String,
    pub source_url: Option<String>,
    /// Whether an assistant may apply the fix on its own.
    pub claude_code_fixable: bool,
    pub examples: Vec<CodeExample>,
    pub tags: Vec<String>,
    /// A disabled rule is kept but never applied.
    pub enabled: bool,
}

/// The mathematical value of a [`DetectionMethod`].
#[allow(inconsistent_fields)]
pub enum DetectionMethodView {
    Regex { pattern: Seq<char> },
    Ast { pattern: Seq<char> },
    LineCount { threshold: usize, pattern: Seq<char> },
    Ratio { threshold: Fraction, pattern: Seq<char> },
    Custom { pattern: Seq<char> },
}

/// The mathematical value of a [`CodeExample`].
pub struct CodeExampleView {
    pub bad: Seq<char>,
    pub good: Seq<char>,
    pub explanation: Seq<char>,
}

/// The mathematical value of an [`AntiPattern`].
pub struct AntiPatternView {
    pub id: Seq<char>,
    pub name: Seq<char>,
    pub language: Language,
    pub severity: Severity,
    pub description: Seq<char>,
    pub detection_method: DetectionMethodView,
    pub fix_suggestion: Seq<char>,
    pub source_url: Option<Seq<char>>,
    pub claude_code_fixable: bool,
    pub examples: Seq<CodeExampleView>,
    pub tags: Seq<Seq<char>>,
    pub enabled: bool,
}

impl View for DetectionMethod {
    type V = DetectionMethodView;

    open spec fn view(&self) -> DetectionMethodView {
        match *self {
            DetectionMethod::Regex { pattern } => DetectionMethodView::Regex { pattern: pattern@ },
            DetectionMethod::Ast { pattern } => DetectionMethodView::Ast { pattern: pattern@ },
            DetectionMethod::LineCount { threshold, pattern } => DetectionMethodView::LineCount {
                threshold,
                pattern: pattern@,
            },
            DetectionMethod::Ratio { threshold, pattern } => DetectionMethodView::Ratio {
                threshold,
                pattern: pattern@,
            },
            DetectionMethod::Custom { pattern } => DetectionMethodView::Custom {
                pattern: pattern@,
            },
        }
    }
}

impl View for CodeExample {
    type V = CodeExampleView;

    open spec fn view(&self) -> CodeExampleView {
        CodeExampleView { bad: self.bad@, good: self.good@, explanation: self.explanation@ }
    }
}

impl DeepView for CodeExample {
    type V = CodeExampleView;

    open spec fn deep_view(&self) -> CodeExampleView {
        self@
    }
}

impl View for AntiPattern {
    type V = AntiPatternView;

    open spec fn view(&self) -> AntiPatternView {
        AntiPatternView {
            id: self.id@,
            name: self.name@,
            language: self.language,
            severity: self.severity,
            description: self.description@,
            detection_method: self.detection_method@,
            fix_suggestion: self.fix_suggestion@,
            source_url: self.source_url.deep_view(),
            claude_code_fixable: self.claude_code_fixable,
            examples: self.examples.deep_view(),
            tags: self.tags.deep_view(),
            enabled: self.enabled,
        }
    }
}

impl DeepView for AntiPattern {
    type V = AntiPatternView;

    open spec fn deep_view(&self) -> AntiPatternView {
        self@
    }
}

/// The lower-case name of a language.
pub open spec fn language_name(language: Language) -> Seq<char> {
    match language {
        Language::Elixir => "elixir"@,
        Language::JavaScript => "javascript"@,
        Language::TypeScript => "typescript"@,
        Language::Python => "python"@,
        Language::Rust => "rust"@,
        Language::Zig => "zig"@,
        Language::Sql => "sql"@,
    }
}

/// The lower-case name of a severity.
pub open spec fn severity_name(severity: Severity) -> Seq<char> {
    match severity {
        Severity::Critical => "critical"@,
        Severity::Major => "major"@,
        Severity::Warning => "warning"@,
    }
}

/// The place of a severity in the declared order.
pub open spec fn severity_rank(severity: Severity) -> nat {
    match severity {
        Severity::Critical => 0,
        Severity::Major => 1,
        Severity::Warning => 2,
    }
}

/// Whether files with the extension `extension` (given without its dot, and
/// compared as it is written) are files of `language`, for the purpose of
/// choosing rules.
pub open spec fn has_extension(language: Language, extension: Seq<char>) -> bool {
    match language {
        Language::Elixir => extension == "ex"@ || extension == "exs"@,
        Language::JavaScript => extension == "js"@ || extension == "jsx"@ || extension == "mjs"@,
        Language::TypeScript => extension == "ts"@ || extension == "tsx"@,
        Language::Python => extension == "py"@,
        Language::Rust => extension == "rs"@,
        Language::Zig => extension == "zig"@,
        Language::Sql => extension == "sql"@,
    }
}

/// Whether `count` matches in a line of `length` characters reach the
/// threshold: the line is not empty and `count / length` is at least
/// `numerator / denominator`.
pub open spec fn reaches(threshold: Fraction, count: nat, length: nat) -> bool {
    &&& length > 0
    &&& threshold.denominator > 0
    &&& count * threshold.denominator >= threshold.numerator * length
}

impl Language {
    /// The lower-case name of the language.
    pub fn to_string(&self) -> (out: String)
        ensures
            out@ == language_name(*self),
    {
        match self {
            Language::Elixir => "elixir".to_string(),
            Language::JavaScript => "javascript".to_string(),
            Language::TypeScript => "typescript".to_string(),
            Language::Python => "python".to_string(),
            Language::Rust => "rust".to_string(),
            Language::Zig => "zig".to_string(),
            Language::Sql => "sql".to_string(),
        }
    }
}

impl Severity {
    /// The lower-case name of the severity.
    pub fn to_string(&self) -> (out: String)
        ensures
            out@ == severity_name(*self),
    {
        match self {
            Severity::Critical => "critical".to_string(),
            Severity::Major => "major".to_string(),
            Severity::Warning => "warning".to_string(),
        }
    }

    /// The place of the severity in the declared order.
    pub fn rank(&self) -> (out: u8)
        ensures
            out == severity_rank(*self),
    {
        match self {
            Severity::Critical => 0,
            Severity::Major => 1,
            Severity::Warning => 2,
        }
    }
}

impl Clone for DetectionMethod {
    fn clone(&self) -> (out: Self)
        ensures
            out@ == self@,
    {
        match self {
            DetectionMethod::Regex { pattern } => DetectionMethod::Regex {
                pattern: pattern.clone(),
            },
            DetectionMethod::Ast { pattern } => DetectionMethod::Ast { pattern: pattern.clone() },
            DetectionMethod::LineCount { threshold, pattern } => DetectionMethod::LineCount {
                threshold: *threshold,
                pattern: pattern.clone(),
            },
            DetectionMethod::Ratio { threshold, pattern } => DetectionMethod::Ratio {
                threshold: *threshold,
                pattern: pattern.clone(),
            },
            DetectionMethod::Custom { pattern } => DetectionMethod::Custom {
                pattern: pattern.clone(),
            },
        }
    }
}

impl Clone for CodeExample {
    fn clone(&self) -> (out: Self)
        ensures
            out@ == self@,
    {
        CodeExample {
            bad: self.bad.clone(),
            good: self.good.clone(),
            explanation: self.explanation.clone(),
        }
    }
}

impl Clone for AntiPattern {
    fn clone(&self) -> (out: Self)
        ensures
            out@ == self@,
    {
        AntiPattern {
            id: self.id.clone(),
            name: self.name.clone(),
            language: self.language,
            severity: self.severity,
            description: self.description.clone(),
            detection_method: self.detection_method.clone(),
            fix_suggestion: self.fix_suggestion.clone(),
            source_url: match &self.source_url {
                Some(url) => Some(url.clone()),
                None => None,
            },
            claude_code_fixable: self.claude_code_fixable,
            examples: clone_examples(&self.examples),
            tags: clone_strings(&self.tags),
            enabled: self.enabled,
        }
    }
}

/// Copies a list of examples.
pub fn clone_examples(list: &Vec<CodeExample>) -> (out: Vec<CodeExample>)
    ensures
        out.deep_view() == list.deep_view(),
{
    let mut out: Vec<CodeExample> = Vec::new();
    let mut i: usize = 0;
    while i < list.len()
        invariant
            i <= list.len(),
            out.deep_view() == list.deep_view().subrange(0, i as int),
        decreases list.len() - i,
    {
        let ghost before = out.deep_view();
        let item = list[i].clone();
        out.push(item);
        assert(out.deep_view() =~= before.push(item@));
        i += 1;
    }
    assert(list.deep_view().subrange(0, i as int) =~= list.deep_view());
    out
}

impl AntiPattern {
    /// Whether the rule applies to files with this extension.
    pub fn matches_file_extension(&self, extension: &str) -> (out: bool)
        ensures
            out == has_extension(self.language, extension@),
    {
        match self.language {
            Language::Elixir => same_text(extension, "ex") || same_text(extension, "exs"),
            Language::JavaScript => same_text(extension, "js") || same_text(extension, "jsx")
                || same_text(extension, "mjs"),
            Language::TypeScript => same_text(extension, "ts") || same_text(extension, "tsx"),
            Language::Python => same_text(extension, "py"),
            Language::Rust => same_text(extension, "rs"),
            Language::Zig => same_text(extension, "zig"),
            Language::Sql => same_text(extension, "sql"),
        }
    }
}

} // verus!
