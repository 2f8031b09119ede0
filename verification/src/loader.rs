//! Loading rules from the entries of a rule-set document.
//!
//! A document is a list of entries in which language, severity and detection
//! method are still written as text. An entry whose language, severity or
//! method is not known is skipped; the others become rules of the registry.

use crate::pattern::{clone_examples, AntiPattern, AntiPatternView, CodeExample, CodeExampleView,
    DetectionMethod, DetectionMethodView, Fraction, Language, Severity};
use crate::registry::{PatternRegistry, RegistryView};
use crate::text::{clone_strings, same_text};
use core::convert::Infallible;
use vstd::prelude::*;

verus! {

/// How an entry of a rule-set document says that its rule is detected.
#[derive(Debug)]
pub struct DetectionRecord {
    /// `regex`, `ratio`, `line_count` or `custom`.
    pub method_type: String,
    pub pattern: String,
    /// The threshold, where the entry gives one.
    pub threshold: Option<Fraction>,
}

/// One entry of a rule-set document.
#[derive(Debug)]
pub struct RuleRecord {
    pub id: String,
    pub name: String,
    /// The lower-case name of one of the supported languages.
    pub language: String,
    /// `critical`, `major` or `warning`.
    pub severity: String,
    pub description: String,
    pub detection_method: DetectionRecord,
    pub fix_suggestion: String,
    pub source_url: Option<String>,
    pub claude_code_fixable: bool,
    pub examples: Vec<CodeExample>,
    pub tags: Vec<String>,
    pub enabled: bool,
}

/// The mathematical value of a [`DetectionRecord`].
pub struct DetectionRecordView {
    pub method_type: Seq<char>,
    pub pattern: Seq<char>,
    pub threshold: Option<Fraction>,
}

/// The mathematical value of a [`RuleRecord`].
pub struct RuleRecordView {
    pub id: Seq<char>,
    pub name: Seq<char>,
    pub language: Seq<char>,
    pub severity: Seq<char>,
    pub description: Seq<char>,
    pub detection_method: DetectionRecordView,
    pub fix_suggestion: Seq<char>,
    pub source_url: Option<Seq<char>>,
    pub claude_code_fixable: bool,
    pub examples: Seq<CodeExampleView>,
    pub tags: Seq<Seq<char>>,
    pub enabled: bool,
}

impl View for DetectionRecord {
    type V = DetectionRecordView;

    open spec fn view(&self) -> DetectionRecordView {
        DetectionRecordView {
            method_type: self.method_type@,
            pattern: self.pattern@,
            threshold: self.threshold,
        }
    }
}

impl View for RuleRecord {
    type V = RuleRecordView;

    open spec fn view(&self) -> RuleRecordView {
        RuleRecordView {
            id: self.id@,
            name: self.name@,
            language: self.language@,
            severity: self.severity@,
            description: self.description@,
            detection_method: self.detection_method@,
            fix_suggestion: self.fix_suggestion@,
            source_url: self.source_url.deep_view(),
            claude_code_fixable: self.claude_code_fixable,
            examples: self.examples.deep_view(),
            tags: self.tags.deep_view(),
            enabled: self.enabled,
        }
    }
}

impl DeepView for RuleRecord {
    type V = RuleRecordView;

    open spec fn deep_view(&self) -> RuleRecordView {
        self@
    }
}

/// The language that a lower-case name stands for.
pub open spec fn language_named(name: Seq<char>) -> Option<Language> {
    if name == "elixir"@ {
        Some(Language::Elixir)
    } else if name == "javascript"@ {
        Some(Language::JavaScript)
    } else if name == "typescript"@ {
        Some(Language::TypeScript)
    } else if name == "python"@ {
        Some(Language::Python)
    } else if name == "rust"@ {
        Some(Language::Rust)
    } else if name == "zig"@ {
        Some(Language::Zig)
    } else if name == "sql"@ {
        Some(Language::Sql)
    } else {
        None
    }
}

/// The severity that a lower-case name stands for.
pub open spec fn severity_named(name: Seq<char>) -> Option<Severity> {
    if name == "critical"@ {
        Some(Severity::Critical)
    } else if name == "major"@ {
        Some(Severity::Major)
    } else if name == "warning"@ {
        Some(Severity::Warning)
    } else {
        None
    }
}

/// The threshold of a ratio rule that gives none: three tenths.
pub open spec fn default_ratio() -> Fraction {
    Fraction { numerator: 3, denominator: 10 }
}

/// The threshold of a line-count rule that gives none.
pub open spec fn default_line_count() -> usize {
    10
}

/// The whole part of a fraction, at most the largest `usize`; zero for a
/// fraction with a zero denominator.
pub open spec fn whole_part(fraction: Fraction) -> usize {
    if fraction.denominator == 0 {
        0
    } else if fraction.numerator / fraction.denominator > usize::MAX {
        usize::MAX
    } else {
        (fraction.numerator / fraction.denominator) as usize
    }
}

/// The detection method that a record describes, if its type is known.
pub open spec fn method_of(record: DetectionRecordView) -> Option<DetectionMethodView> {
    if record.method_type == "regex"@ {
        Some(DetectionMethodView::Regex { pattern: record.pattern })
    } else if record.method_type == "ratio"@ {
        Some(
            DetectionMethodView::Ratio {
                threshold: match record.threshold {
                    Some(threshold) => threshold,
                    None => default_ratio(),
                },
                pattern: record.pattern,
            },
        )
    } else if record.method_type == "line_count"@ {
        Some(
            DetectionMethodView::LineCount {
                threshold: match record.threshold {
                    Some(threshold) => whole_part(threshold),
                    None => default_line_count(),
                },
                pattern: record.pattern,
            },
        )
    } else if record.method_type == "custom"@ {
        Some(DetectionMethodView::Custom { pattern: record.pattern })
    } else {
        None
    }
}

/// The rule that an entry describes; `None` if its language, its severity or
/// the type of its detection method is not known.
pub open spec fn rule_of(record: RuleRecordView) -> Option<AntiPatternView> {
    match (
        language_named(record.language),
        severity_named(record.severity),
        method_of(record.detection_method),
    ) {
        (Some(language), Some(severity), Some(detection_method)) => Some(
            AntiPatternView {
                id: record.id,
                name: record.name,
                language,
                severity,
                description: record.description,
                detection_method,
                fix_suggestion: record.fix_suggestion,
                source_url: record.source_url,
                claude_code_fixable: record.claude_code_fixable,
                examples: record.examples,
                tags: record.tags,
                enabled: record.enabled,
            },
        ),
        _ => None,
    }
}

/// The registry after one entry is loaded.
pub open spec fn load_record(registry: RegistryView, record: RuleRecordView) -> RegistryView {
    match rule_of(record) {
        Some(rule) => registry.add(rule),
        None => registry,
    }
}

/// The registry after the entries are loaded, one after the other.
pub open spec fn load_records(registry: RegistryView, records: Seq<RuleRecordView>) -> RegistryView
    decreases records.len(),
{
    if records.len() == 0 {
        registry
    } else {
        load_records(load_record(registry, records[0]), records.drop_first())
    }
}

/// Reads the name of a language.
pub fn parse_language(name: &str) -> (out: Option<Language>)
    ensures
        out == language_named(name@),
{
    if same_text(name, "elixir") {
        Some(Language::Elixir)
    } else if same_text(name, "javascript") {
        Some(Language::JavaScript)
    } else if same_text(name, "typescript") {
        Some(Language::TypeScript)
    } else if same_text(name, "python") {
        Some(Language::Python)
    } else if same_text(name, "rust") {
        Some(Language::Rust)
    } else if same_text(name, "zig") {
        Some(Language::Zig)
    } else if same_text(name, "sql") {
        Some(Language::Sql)
    } else {
        None
    }
}

/// Reads the name of a severity.
pub fn parse_severity(name: &str) -> (out: Option<Severity>)
    ensures
        out == severity_named(name@),
{
    if same_text(name, "critical") {
        Some(Severity::Critical)
    } else if same_text(name, "major") {
        Some(Severity::Major)
    } else if same_text(name, "warning") {
        Some(Severity::Warning)
    } else {
        None
    }
}

/// Computes the whole part of a fraction.
pub fn fraction_whole_part(fraction: Fraction) -> (out: usize)
    ensures
        out == whole_part(fraction),
{
    if fraction.denominator == 0 {
        0
    } else {
        let whole: u64 = fraction.numerator / fraction.denominator;
        if whole > usize::MAX as u64 {
            usize::MAX
        } else {
            whole as usize
        }
    }
}

/// Reads the detection method out of a record.
pub fn parse_method(record: &DetectionRecord) -> (out: Option<DetectionMethod>)
    ensures
        out.is_some() == method_of(record@).is_some(),
        out matches Some(method) ==> method@ == method_of(record@)->0,
{
    let kind = record.method_type.as_str();
    if same_text(kind, "regex") {
        Some(DetectionMethod::Regex { pattern: record.pattern.clone() })
    } else if same_text(kind, "ratio") {
        let threshold = match record.threshold {
            Some(threshold) => threshold,
            None => Fraction { numerator: 3, denominator: 10 },
        };
        Some(DetectionMethod::Ratio { threshold, pattern: record.pattern.clone() })
    } else if same_text(kind, "line_count") {
        let threshold: usize = match record.threshold {
            Some(threshold) => fraction_whole_part(threshold),
            None => 10,
        };
        Some(DetectionMethod::LineCount { threshold, pattern: record.pattern.clone() })
    } else if same_text(kind, "custom") {
        Some(DetectionMethod::Custom { pattern: record.pattern.clone() })
    } else {
        None
    }
}

/// Builds the rule that an entry describes.
pub fn rule_from_record(record: &RuleRecord) -> (out: Option<AntiPattern>)
    ensures
        out.deep_view() == rule_of(record@),
{
    let language = match parse_language(record.language.as_str()) {
        Some(language) => language,
        None => {
            return None;
        },
    };
    let severity = match parse_severity(record.severity.as_str()) {
        Some(severity) => severity,
        None => {
            return None;
        },
    };
    let detection_method = match parse_method(&record.detection_method) {
        Some(method) => method,
        None => {
            return None;
        },
    };
    Some(
        AntiPattern {
            id: record.id.clone(),
            name: record.name.clone(),
            language,
            severity,
            description: record.description.clone(),
            detection_method,
            fix_suggestion: record.fix_suggestion.clone(),
            source_url: match &record.source_url {
                Some(url) => Some(url.clone()),
                None => None,
            },
            claude_code_fixable: record.claude_code_fixable,
            examples: clone_examples(&record.examples),
            tags: clone_strings(&record.tags),
            enabled: record.enabled,
        },
    )
}

impl PatternRegistry {
    /// Loads the entries of a rule-set document. An entry that cannot be made
    /// into a rule is skipped; the others are added in order.
    pub fn load_rules_from_records(&mut self, records: &Vec<RuleRecord>) -> (out: Result<
        (),
        Infallible,
    >)
        ensures
            out is Ok,
            final(self)@ == load_records(old(self)@, records.deep_view()),
            old(self)@.wf() ==> final(self)@.wf(),
    {
        let mut i: usize = 0;
        assert(records.deep_view().skip(0) =~= records.deep_view());
        while i < records.len()
            invariant
                i <= records.len(),
                load_records(old(self)@, records.deep_view()) == load_records(
                    self@,
                    records.deep_view().skip(i as int),
                ),
                old(self)@.wf() ==> self@.wf(),
            decreases records.len() - i,
        {
            proof {
                let rest = records.deep_view().skip(i as int);
                assert(rest[0] == records[i as int]@);
                assert(rest.drop_first() =~= records.deep_view().skip(i + 1));
            }
            match rule_from_record(&records[i]) {
                Some(rule) => {
                    self.add_pattern(rule);
                },
                None => {},
            }
            i += 1;
        }
        Ok(())
    }
}

} // verus!
