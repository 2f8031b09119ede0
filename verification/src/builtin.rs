//! The rules that ship with the library.

use crate::pattern::{AntiPattern, AntiPatternView, CodeExample, CodeExampleView, DetectionMethod,
    DetectionMethodView, Language, Severity};
use crate::registry::PatternRegistry;
use core::convert::Infallible;
use vstd::prelude::*;

verus! {

/// The rule against making atoms from input at run time.
pub open spec fn dynamic_atom_creation() -> AntiPatternView {
    AntiPatternView {
        id: "dynamic_atom_creation"@,
        name: "Dynamic Atom Creation"@,
        language: Language::Elixir,
        severity: Severity::Critical,
        description: "Creating atoms from uncontrolled input can exhaust memory as atoms are never garbage collected"@,
        detection_method: DetectionMethodView::Regex { pattern: "String\\.to_atom\\s*\\("@ },
        fix_suggestion: "Replace String.to_atom(input) with String.to_existing_atom(input) or use explicit atom mapping"@,
        source_url: Some(
            "https://hexdocs.pm/elixir/main/code-anti-patterns.html#dynamic-atom-creation"@,
        ),
        claude_code_fixable: true,
        examples: seq![
            CodeExampleView {
                bad: "String.to_atom(user_input)"@,
                good: "String.to_existing_atom(user_input)"@,
                explanation: "Only converts if atom already exists, preventing memory exhaustion"@,
            },
        ],
        tags: seq!["security"@, "memory"@],
        enabled: true,
    }
}

/// The rule against functions with five or more parameters.
pub open spec fn long_parameter_list() -> AntiPatternView {
    AntiPatternView {
        id: "long_parameter_list"@,
        name: "Long Parameter List"@,
        language: Language::Elixir,
        severity: Severity::Major,
        description: "Functions with too many parameters become confusing and error-prone"@,
        detection_method: DetectionMethodView::Regex {
            pattern: "def\\s+\\w+\\s*\\([^)]*,[^)]*,[^)]*,[^)]*,[^)]"@,
        },
        fix_suggestion: "Group related parameters into structs or maps"@,
        source_url: Some(
            "https://hexdocs.pm/elixir/main/code-anti-patterns.html#long-parameter-list"@,
        ),
        claude_code_fixable: true,
        examples: seq![
            CodeExampleView {
                bad: "def loan(user_name, email, password, alias, book_title, book_ed)"@,
                good: "def loan(%{name: name, email: email} = user, %{title: title, ed: ed} = book)"@,
                explanation: "Grouping related parameters improves clarity and reduces errors"@,
            },
        ],
        tags: seq!["maintainability"@],
        enabled: true,
    }
}

/// Builds the rule against making atoms from input at run time.
pub fn dynamic_atom_creation_rule() -> (out: AntiPattern)
    ensures
        out@ == dynamic_atom_creation(),
{
    let examples = vec![
        CodeExample {
            bad: "String.to_atom(user_input)".to_string(),
            good: "String.to_existing_atom(user_input)".to_string(),
            explanation: "Only converts if atom already exists, preventing memory exhaustion".to_string(),
        },
    ];
    let tags = vec!["security".to_string(), "memory".to_string()];
    proof {
        assert(examples.deep_view() =~= dynamic_atom_creation().examples);
        assert(tags.deep_view() =~= dynamic_atom_creation().tags);
    }
    AntiPattern {
        id: "dynamic_atom_creation".to_string(),
        name: "Dynamic Atom Creation".to_string(),
        language: Language::Elixir,
        severity: Severity::Critical,
        description: "Creating atoms from uncontrolled input can exhaust memory as atoms are never garbage collected".to_string(),
        detection_method: DetectionMethod::Regex { pattern: "String\\.to_atom\\s*\\(".to_string() },
        fix_suggestion: "Replace String.to_atom(input) with String.to_existing_atom(input) or use explicit atom mapping".to_string(),
        source_url: Some(
            "https://hexdocs.pm/elixir/main/code-anti-patterns.html#dynamic-atom-creation".to_string(),
        ),
        claude_code_fixable: true,
        examples,
        tags,
        enabled: true,
    }
}

/// Builds the rule against functions with five or more parameters.
pub fn long_parameter_list_rule() -> (out: AntiPattern)
    ensures
        out@ == long_parameter_list(),
{
    let examples = vec![
        CodeExample {
            bad: "def loan(user_name, email, password, alias, book_title, book_ed)".to_string(),
            good: "def loan(%{name: name, email: email} = user, %{title: title, ed: ed} = book)".to_string(),
            explanation: "Grouping related parameters improves clarity and reduces errors".to_string(),
        },
    ];
    let tags = vec!["maintainability".to_string()];
    proof {
        assert(examples.deep_view() =~= long_parameter_list().examples);
        assert(tags.deep_view() =~= long_parameter_list().tags);
    }
    AntiPattern {
        id: "long_parameter_list".to_string(),
        name: "Long Parameter List".to_string(),
        language: Language::Elixir,
        severity: Severity::Major,
        description: "Functions with too many parameters become confusing and error-prone".to_string(),
        detection_method: DetectionMethod::Regex {
            pattern: "def\\s+\\w+\\s*\\([^)]*,[^)]*,[^)]*,[^)]*,[^)]".to_string(),
        },
        fix_suggestion: "Group related parameters into structs or maps".to_string(),
        source_url: Some(
            "https://hexdocs.pm/elixir/main/code-anti-patterns.html#long-parameter-list".to_string(),
        ),
        claude_code_fixable: true,
        examples,
        tags,
        enabled: true,
    }
}

impl PatternRegistry {
    /// Adds the built-in Elixir rules.
    pub fn add_elixir_patterns(&mut self)
        ensures
            final(self)@ == old(self)@.add(dynamic_atom_creation()).add(long_parameter_list()),
            old(self)@.wf() ==> final(self)@.wf(),
    {
        self.add_pattern(dynamic_atom_creation_rule());
        self.add_pattern(long_parameter_list_rule());
    }

    /// Adds the built-in rules and compiles the expressions of all rules.
    pub fn load_built_in_patterns(&mut self) -> (out: Result<(), Infallible>)
        ensures
            out is Ok,
            final(self)@ == old(self)@.add(dynamic_atom_creation()).add(
                long_parameter_list(),
            ).compile(),
            old(self)@.wf() ==> final(self)@.wf(),
    {
        self.add_elixir_patterns();
        self.compile_all_patterns()
    }
}

} // verus!
