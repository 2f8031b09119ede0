//! Choices that a caller makes before a scan: which languages to look at,
//! which changes to take, and which files of a diff to keep.

use crate::diff::{DiffScope, FileDiff, FileDiffView, GitDiff};
use crate::pattern::{AntiPattern, AntiPatternView, Language, Severity};
use crate::registry::lemma_filter_push;
use crate::review::{detected_language, ReviewEngine};
use vstd::prelude::*;

verus! {

/// One switch for each language.
#[derive(Debug, Clone, Copy, PartialEq, Eq, Structural)]
pub struct LanguageFlags {
    pub elixir: bool,
    pub javascript: bool,
    pub typescript: bool,
    pub python: bool,
    pub rust: bool,
    pub zig: bool,
    pub sql: bool,
}

/// Why no single language could be read from the switches.
#[derive(Debug, Clone, Copy, PartialEq, Eq, Structural)]
pub enum SelectionError {
    /// None of the switches is set, or more than one.
    NotExactlyOneLanguage,
}

/// All languages, in their declared order.
pub open spec fn all_languages() -> Seq<Language> {
    seq![
        Language::Elixir,
        Language::JavaScript,
        Language::TypeScript,
        Language::Python,
        Language::Rust,
        Language::Zig,
        Language::Sql,
    ]
}

/// Whether the switch of a language is set.
pub open spec fn flag_of(flags: LanguageFlags, language: Language) -> bool {
    match language {
        Language::Elixir => flags.elixir,
        Language::JavaScript => flags.javascript,
        Language::TypeScript => flags.typescript,
        Language::Python => flags.python,
        Language::Rust => flags.rust,
        Language::Zig => flags.zig,
        Language::Sql => flags.sql,
    }
}

/// How many switches are set.
pub open spec fn flag_count(flags: LanguageFlags) -> nat {
    let one = |set: bool| if set { 1nat } else { 0nat };
    one(flags.elixir) + one(flags.javascript) + one(flags.typescript) + one(flags.python) + one(
        flags.rust,
    ) + one(flags.zig) + one(flags.sql)
}

/// The first language, in the declared order, whose switch is set.
pub open spec fn first_flagged(flags: LanguageFlags) -> Language {
    if flags.elixir {
        Language::Elixir
    } else if flags.javascript {
        Language::JavaScript
    } else if flags.typescript {
        Language::TypeScript
    } else if flags.python {
        Language::Python
    } else if flags.rust {
        Language::Rust
    } else if flags.zig {
        Language::Zig
    } else {
        Language::Sql
    }
}

/// The language whose switch is set, where exactly one is.
pub open spec fn single_language(flags: LanguageFlags) -> Option<Language> {
    if flag_count(flags) == 1 {
        Some(first_flagged(flags))
    } else {
        None
    }
}

/// The languages whose switches are set, in the declared order.
pub open spec fn flagged(flags: LanguageFlags) -> Seq<Language> {
    all_languages().filter(|language: Language| flag_of(flags, language))
}

/// The languages to show rules for: those of the switches if any is set;
/// else all if the caller asks widely; else those of the project, or all
/// where the project has none.
pub open spec fn target_languages(flags: LanguageFlags, wide: bool, project: Seq<Language>) -> Seq<
    Language,
> {
    if flagged(flags).len() > 0 {
        flagged(flags)
    } else if wide || project.len() == 0 {
        all_languages()
    } else {
        project
    }
}

/// The changes to review: the staged ones if asked for; else the unstaged
/// ones if asked for; else those since the given reference, or since `HEAD`.
pub open spec fn diff_scope(staged: bool, uncommitted: bool, since: Option<Seq<char>>)
    -> crate::diff::DiffScopeView {
    if staged {
        crate::diff::DiffScopeView::Staged
    } else if uncommitted {
        crate::diff::DiffScopeView::Unstaged
    } else {
        match since {
            Some(reference) => crate::diff::DiffScopeView::SinceCommit(reference),
            None => crate::diff::DiffScopeView::SinceCommit("HEAD"@),
        }
    }
}

/// The test that keeps the files of a language.
pub open spec fn is_written_in(language: Language) -> spec_fn(FileDiffView) -> bool {
    |file: FileDiffView| detected_language(file.path) == Some(language)
}

/// How many of the rules have the given severity.
pub open spec fn count_rules(rules: Seq<AntiPatternView>, severity: Severity) -> nat
    decreases rules.len(),
{
    if rules.len() == 0 {
        0
    } else {
        count_rules(rules.drop_last(), severity) + (if rules.last().severity == severity {
            1nat
        } else {
            0nat
        })
    }
}

/// Every rule has one of the three severities.
pub proof fn lemma_count_rules(rules: Seq<AntiPatternView>)
    ensures
        count_rules(rules, Severity::Critical) + count_rules(rules, Severity::Major) + count_rules(
            rules,
            Severity::Warning,
        ) == rules.len(),
    decreases rules.len(),
{
    if rules.len() > 0 {
        lemma_count_rules(rules.drop_last());
    }
}

impl SelectionError {
    /// What to tell the user.
    pub fn message(&self) -> (out: &'static str)
        ensures
            out@ == "Please specify exactly one language flag (--elixir, --javascript, --typescript, --python, --rust, --zig, --sql)"@,
    {
        "Please specify exactly one language flag (--elixir, --javascript, --typescript, --python, --rust, --zig, --sql)"
    }
}

/// The one language whose switch is set; an error if none is set, or more
/// than one.
pub fn get_language_from_args(flags: &LanguageFlags) -> (out: Result<Language, SelectionError>)
    ensures
        out == (match single_language(*flags) {
            Some(language) => Ok::<Language, SelectionError>(language),
            None => Err::<Language, SelectionError>(SelectionError::NotExactlyOneLanguage),
        }),
{
    let set = (
        flags.elixir,
        flags.javascript,
        flags.typescript,
        flags.python,
        flags.rust,
        flags.zig,
        flags.sql,
    );
    match set {
        (true, false, false, false, false, false, false) => Ok(Language::Elixir),
        (false, true, false, false, false, false, false) => Ok(Language::JavaScript),
        (false, false, true, false, false, false, false) => Ok(Language::TypeScript),
        (false, false, false, true, false, false, false) => Ok(Language::Python),
        (false, false, false, false, true, false, false) => Ok(Language::Rust),
        (false, false, false, false, false, true, false) => Ok(Language::Zig),
        (false, false, false, false, false, false, true) => Ok(Language::Sql),
        _ => Err(SelectionError::NotExactlyOneLanguage),
    }
}

/// All languages, in their declared order.
pub fn every_language() -> (out: Vec<Language>)
    ensures
        out@ == all_languages(),
{
    let out = vec![
        Language::Elixir,
        Language::JavaScript,
        Language::TypeScript,
        Language::Python,
        Language::Rust,
        Language::Zig,
        Language::Sql,
    ];
    assert(out@ =~= all_languages());
    out
}

/// The languages to show rules for.
pub fn determine_target_languages(flags: &LanguageFlags, wide: bool, project: &Vec<Language>) -> (out:
    Vec<Language>)
    ensures
        out@ == target_languages(*flags, wide, project@),
{
    let all = every_language();
    let ghost keep = |language: Language| flag_of(*flags, language);
    let mut chosen: Vec<Language> = Vec::new();
    let mut i: usize = 0;
    proof {
        reveal(Seq::filter);
        assert(all@.subrange(0, 0) =~= Seq::empty());
    }
    while i < all.len()
        invariant
            i <= all.len(),
            all@ == all_languages(),
            keep == (|language: Language| flag_of(*flags, language)),
            chosen@ == all@.subrange(0, i as int).filter(keep),
        decreases all.len() - i,
    {
        let language = all[i];
        proof {
            lemma_filter_push(all@.subrange(0, i as int), language, keep);
            assert(all@.subrange(0, i as int).push(language) =~= all@.subrange(0, i + 1));
        }
        let set = match language {
            Language::Elixir => flags.elixir,
            Language::JavaScript => flags.javascript,
            Language::TypeScript => flags.typescript,
            Language::Python => flags.python,
            Language::Rust => flags.rust,
            Language::Zig => flags.zig,
            Language::Sql => flags.sql,
        };
        if set {
            chosen.push(language);
        }
        i += 1;
    }
    proof {
        assert(all@.subrange(0, i as int) =~= all@);
    }
    if chosen.len() > 0 {
        chosen
    } else if wide || project.len() == 0 {
        all
    } else {
        project.clone()
    }
}

/// The changes to review.
pub fn determine_diff_scope(staged: bool, uncommitted: bool, since: Option<&str>) -> (out: DiffScope)
    ensures
        out@ == diff_scope(staged, uncommitted, since.deep_view()),
{
    if staged {
        DiffScope::Staged
    } else if uncommitted {
        DiffScope::Unstaged
    } else {
        match since {
            Some(reference) => DiffScope::SinceCommit(reference.to_string()),
            None => DiffScope::SinceCommit("HEAD".to_string()),
        }
    }
}

/// Keeps the files of a diff that are written in the given language, by
/// their extensions.
pub fn filter_diff_by_language(git_diff: GitDiff, target_language: &Language) -> (out: GitDiff)
    ensures
        out@.files == git_diff@.files.filter(is_written_in(*target_language)),
{
    let engine = ReviewEngine::with_registry(crate::registry::PatternRegistry::new());
    let ghost all = git_diff@.files;
    let ghost keep = is_written_in(*target_language);
    let mut files: Vec<FileDiff> = Vec::new();
    let mut i: usize = 0;
    proof {
        reveal(Seq::filter);
        assert(files.deep_view() =~= Seq::empty());
        assert(all.subrange(0, 0) =~= Seq::empty());
    }
    while i < git_diff.files.len()
        invariant
            i <= git_diff.files.len(),
            all == git_diff@.files,
            all.len() == git_diff.files.len(),
            keep == is_written_in(*target_language),
            files.deep_view() == all.subrange(0, i as int).filter(keep),
        decreases git_diff.files.len() - i,
    {
        let file = &git_diff.files[i];
        proof {
            lemma_filter_push(all.subrange(0, i as int), file@, keep);
            assert(all.subrange(0, i as int).push(file@) =~= all.subrange(0, i + 1));
        }
        let detected = engine.detect_language_from_path(file.path.as_str());
        let same = match detected {
            Some(language) => language == *target_language,
            None => false,
        };
        if same {
            let ghost before = files.deep_view();
            let copy = file.clone();
            files.push(copy);
            assert(files.deep_view() =~= before.push(copy@));
        }
        i += 1;
    }
    proof {
        assert(all.subrange(0, i as int) =~= all);
    }
    GitDiff { files }
}

/// Counts rules by severity: critical, major, warning.
pub fn count_patterns_by_severity(patterns: &[&AntiPattern]) -> (out: (usize, usize, usize))
    ensures
        out.0 == count_rules(patterns.deep_view(), Severity::Critical),
        out.1 == count_rules(patterns.deep_view(), Severity::Major),
        out.2 == count_rules(patterns.deep_view(), Severity::Warning),
{
    let ghost all = patterns.deep_view();
    let mut critical: usize = 0;
    let mut major: usize = 0;
    let mut warning: usize = 0;
    let mut i: usize = 0;
    assert(all.subrange(0, 0) =~= Seq::empty());
    while i < patterns.len()
        invariant
            i <= patterns.len(),
            all == patterns.deep_view(),
            all.len() == patterns.len(),
            critical == count_rules(all.subrange(0, i as int), Severity::Critical),
            major == count_rules(all.subrange(0, i as int), Severity::Major),
            warning == count_rules(all.subrange(0, i as int), Severity::Warning),
        decreases patterns.len() - i,
    {
        proof {
            let upto = all.subrange(0, i + 1);
            assert(upto.drop_last() =~= all.subrange(0, i as int));
            assert(upto.last() == patterns[i as int]@);
            lemma_count_rules(all.subrange(0, i as int));
        }
        match patterns[i].severity {
            Severity::Critical => {
                critical += 1;
            },
            Severity::Major => {
                major += 1;
            },
            Severity::Warning => {
                warning += 1;
            },
        }
        i += 1;
    }
    assert(all.subrange(0, i as int) =~= all);
    (critical, major, warning)
}

} // verus!
