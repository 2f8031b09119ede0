//! The request that opens an interactive session with an assistant: the
//! project, and every violation with the code around it.

use crate::pattern::{Language, Severity};
use crate::project::{has_name, ProjectInfo, ProjectInfoView};
use crate::review::{ReviewViolation, ReviewViolationView};
use crate::text::{append_decimal, decimal_text, same_text};
use vstd::prelude::*;
use vstd::string::StringExecFns;

verus! {

/// The name of a language, as it is shown.
pub open spec fn language_title(language: Language) -> Seq<char> {
    match language {
        Language::Elixir => "Elixir"@,
        Language::JavaScript => "JavaScript"@,
        Language::TypeScript => "TypeScript"@,
        Language::Python => "Python"@,
        Language::Rust => "Rust"@,
        Language::Zig => "Zig"@,
        Language::Sql => "Sql"@,
    }
}

/// The names of the languages, separated by a comma and a space.
pub open spec fn language_titles(languages: Seq<Language>) -> Seq<char>
    decreases languages.len(),
{
    if languages.len() == 0 {
        Seq::empty()
    } else if languages.len() == 1 {
        language_title(languages[0])
    } else {
        language_titles(languages.drop_last()) + ", "@ + language_title(languages.last())
    }
}

/// The mark that is shown for a severity.
pub open spec fn severity_mark(severity: Severity) -> Seq<char> {
    match severity {
        Severity::Critical => "\u{1F534} CRITICAL"@,
        Severity::Major => "\u{1F7E1} MAJOR"@,
        Severity::Warning => "\u{1F535} WARNING"@,
    }
}

/// The number of the line from which context is shown: two before the line
/// of the violation, but not below zero.
pub open spec fn context_start(line_number: usize) -> nat {
    if line_number >= 2 {
        (line_number - 2) as nat
    } else {
        0
    }
}

/// Lines of code, each behind its number; the first has the number `from`.
pub open spec fn numbered(lines: Seq<Seq<char>>, from: nat) -> Seq<char>
    decreases lines.len(),
{
    if lines.len() == 0 {
        Seq::empty()
    } else {
        numbered(lines.drop_last(), from) + "   "@ + decimal_text(
            (from + lines.len() - 1) as nat,
        ) + " \u{2502} "@ + lines.last() + "\n"@
    }
}

/// The first lines of what the request says of a violation: where it lies,
/// how severe it is, which rule it breaks and what the rule is about.
pub open spec fn violation_head(violation: ReviewViolationView) -> Seq<char> {
    "\u{1F4C1} "@ + violation.file_path + ":"@ + decimal_text(violation.line_number as nat) + "\n"@
        + severity_mark(violation.severity) + ": "@ + violation.rule.name + " ("@
        + violation.rule.id + ")\n   Problem: "@ + violation.rule.description + "\n   Code:\n"@
}

/// The code that the request shows for a violation: the lines before it,
/// the line itself, marked, and the lines after it, each behind its number.
pub open spec fn violation_code(violation: ReviewViolationView) -> Seq<char> {
    numbered(violation.context_before, context_start(violation.line_number)) + "   "@
        + decimal_text(violation.line_number as nat) + " \u{2502} "@ + violation.content
        + "  \u{2190} VIOLATION\n"@ + numbered(
        violation.context_after,
        (violation.line_number + 1) as nat,
    )
}

/// What the request says of one violation.
pub open spec fn violation_block(violation: ReviewViolationView) -> Seq<char> {
    violation_head(violation) + violation_code(violation) + "   Fix: "@
        + violation.fix_suggestion + "\n\n"@
}

/// The paths of the violations, each once, in the order in which they first
/// occur.
pub open spec fn distinct_paths(violations: Seq<ReviewViolationView>) -> Seq<Seq<char>>
    decreases violations.len(),
{
    if violations.len() == 0 {
        Seq::empty()
    } else {
        let before = distinct_paths(violations.drop_last());
        if before.contains(violations.last().file_path) {
            before
        } else {
            before.push(violations.last().file_path)
        }
    }
}

/// What the request says of the violations in one file.
pub open spec fn file_blocks(violations: Seq<ReviewViolationView>, path: Seq<char>) -> Seq<char>
    decreases violations.len(),
{
    if violations.len() == 0 {
        Seq::empty()
    } else {
        file_blocks(violations.drop_last(), path) + (if violations.last().file_path == path {
            violation_block(violations.last())
        } else {
            Seq::empty()
        })
    }
}

/// What the request says of the violations in the given files.
pub open spec fn all_blocks(violations: Seq<ReviewViolationView>, paths: Seq<Seq<char>>) -> Seq<
    char,
>
    decreases paths.len(),
{
    if paths.len() == 0 {
        Seq::empty()
    } else {
        all_blocks(violations, paths.drop_last()) + file_blocks(violations, paths.last())
    }
}

/// The request: the project with its languages, the number of files and of
/// violations, then the violations file by file, the files in the order in
/// which they first occur.
pub open spec fn session_query(project: ProjectInfoView, violations: Seq<ReviewViolationView>)
    -> Seq<char> {
    "Fix these code quality violations in my project:\n\nPROJECT: "@ + project.name + " ("@ + (
    if project.languages.len() == 0 {
        "Unknown"@
    } else {
        language_titles(project.languages)
    }) + ")\nFILES AFFECTED: "@ + decimal_text(distinct_paths(violations).len())
        + " files with "@ + decimal_text(violations.len()) + " violations\n\nVIOLATIONS FOUND:\n\n"@
        + all_blocks(violations, distinct_paths(violations))
        + "Please help me fix these issues interactively. Show me the problems and guide me through solutions."@
}

impl Language {
    /// The name of the language, as it is shown.
    pub fn title(&self) -> (out: &'static str)
        ensures
            out@ == language_title(*self),
    {
        match self {
            Language::Elixir => "Elixir",
            Language::JavaScript => "JavaScript",
            Language::TypeScript => "TypeScript",
            Language::Python => "Python",
            Language::Rust => "Rust",
            Language::Zig => "Zig",
            Language::Sql => "Sql",
        }
    }
}

impl Severity {
    /// The mark that is shown for the severity.
    pub fn mark(&self) -> (out: &'static str)
        ensures
            out@ == severity_mark(*self),
    {
        match self {
            Severity::Critical => "\u{1F534} CRITICAL",
            Severity::Major => "\u{1F7E1} MAJOR",
            Severity::Warning => "\u{1F535} WARNING",
        }
    }
}

/// Appends lines of code, each behind its number.
fn append_numbered(out: &mut String, lines: &Vec<String>, from: usize)
    requires
        from + lines.len() <= usize::MAX,
    ensures
        final(out)@ == old(out)@ + numbered(lines.deep_view(), from as nat),
{
    let ghost all = lines.deep_view();
    let ghost start = out@;
    let mut i: usize = 0;
    proof {
        assert(all.subrange(0, 0) =~= Seq::empty());
        assert(start + Seq::<char>::empty() =~= start);
    }
    while i < lines.len()
        invariant
            i <= lines.len(),
            from + lines.len() <= usize::MAX,
            all == lines.deep_view(),
            all.len() == lines.len(),
            out@ == start + numbered(all.subrange(0, i as int), from as nat),
        decreases lines.len() - i,
    {
        let ghost before = out@;
        proof {
            let upto = all.subrange(0, i + 1);
            assert(upto.drop_last() =~= all.subrange(0, i as int));
            assert(upto.last() == lines[i as int]@);
        }
        out.append("   ");
        append_decimal(out, from + i);
        out.append(" \u{2502} ");
        out.append(lines[i].as_str());
        out.append("\n");
        proof {
            assert(out@ =~= start + numbered(all.subrange(0, i + 1), from as nat));
        }
        i += 1;
    }
    proof {
        assert(all.subrange(0, i as int) =~= all);
    }
}

/// Appends the first lines of what the request says of a violation.
fn append_head(out: &mut String, violation: &ReviewViolation)
    ensures
        final(out)@ == old(out)@ + violation_head(violation@),
{
    let ghost start = out@;
    out.append("\u{1F4C1} ");
    out.append(violation.file_path.as_str());
    out.append(":");
    append_decimal(out, violation.line_number);
    out.append("\n");
    let ghost first = "\u{1F4C1} "@ + violation.file_path@ + ":"@ + decimal_text(
        violation.line_number as nat,
    ) + "\n"@;
    assert(out@ =~= start + first);
    out.append(violation.severity.mark());
    out.append(": ");
    out.append(violation.rule.name.as_str());
    out.append(" (");
    let ghost second = first + severity_mark(violation.severity) + ": "@ + violation.rule.name@
        + " ("@;
    assert(out@ =~= start + second);
    out.append(violation.rule.id.as_str());
    out.append(")\n   Problem: ");
    out.append(violation.rule.description.as_str());
    out.append("\n   Code:\n");
    assert(out@ =~= start + (second + violation.rule.id@ + ")\n   Problem: "@
        + violation.rule.description@ + "\n   Code:\n"@));
}

/// Appends the code that the request shows for a violation.
fn append_code(out: &mut String, violation: &ReviewViolation)
    requires
        violation.line_number + 1 + violation.context_after.len() <= usize::MAX,
        context_start(violation.line_number) + violation.context_before.len() <= usize::MAX,
    ensures
        final(out)@ == old(out)@ + violation_code(violation@),
{
    let ghost start = out@;
    let first: usize = if violation.line_number >= 2 {
        violation.line_number - 2
    } else {
        0
    };
    append_numbered(out, &violation.context_before, first);
    let ghost before = numbered(violation@.context_before, context_start(violation.line_number));
    assert(out@ =~= start + before);
    out.append("   ");
    append_decimal(out, violation.line_number);
    out.append(" \u{2502} ");
    out.append(violation.content.as_str());
    out.append("  \u{2190} VIOLATION\n");
    let ghost middle = before + "   "@ + decimal_text(violation.line_number as nat)
        + " \u{2502} "@ + violation.content@ + "  \u{2190} VIOLATION\n"@;
    assert(out@ =~= start + middle);
    append_numbered(out, &violation.context_after, violation.line_number + 1);
    assert(out@ =~= start + (middle + numbered(
        violation@.context_after,
        (violation.line_number + 1) as nat,
    )));
}

/// Appends what the request says of one violation.
fn append_block(out: &mut String, violation: &ReviewViolation)
    requires
        violation.line_number + 1 + violation.context_after.len() <= usize::MAX,
        context_start(violation.line_number) + violation.context_before.len() <= usize::MAX,
    ensures
        final(out)@ == old(out)@ + violation_block(violation@),
{
    let ghost start = out@;
    append_head(out, violation);
    append_code(out, violation);
    assert(out@ =~= start + (violation_head(violation@) + violation_code(violation@)));
    out.append("   Fix: ");
    out.append(violation.fix_suggestion.as_str());
    out.append("\n\n");
    assert(out@ =~= start + violation_block(violation@));
}

/// Whether the numbers of the lines shown around a violation can be
/// written: none of them is beyond the largest number.
pub open spec fn can_be_numbered(violation: ReviewViolationView) -> bool {
    &&& violation.line_number + 1 + violation.context_after.len() <= usize::MAX
    &&& context_start(violation.line_number) + violation.context_before.len() <= usize::MAX
}

/// Tests whether the numbers of the lines around a violation can be written.
pub fn check_numbering(violation: &ReviewViolation) -> (out: bool)
    ensures
        out == can_be_numbered(violation@),
{
    let room = usize::MAX - violation.line_number;
    let first: usize = if violation.line_number >= 2 {
        violation.line_number - 2
    } else {
        0
    };
    room >= 1 && violation.context_after.len() <= room - 1 && violation.context_before.len()
        <= usize::MAX - first
}

/// Writes the request that opens an interactive session, or `None` if a
/// violation lies so near the largest line number that the lines after it
/// cannot be numbered.
pub fn create_claude_query(project: &ProjectInfo, violations: &[ReviewViolation]) -> (out: Option<
    String,
>)
    ensures
        match out {
            Some(query) => query@ == session_query(project@, violations.deep_view()) && forall|
                i: int,
            |
                0 <= i < violations.len() ==> can_be_numbered(
                    #[trigger] violations.deep_view()[i],
                ),
            None => exists|i: int|
                0 <= i < violations.len() && !can_be_numbered(
                    #[trigger] violations.deep_view()[i],
                ),
        },
{
    let ghost all = violations.deep_view();
    // The files, in the order in which they first occur.
    let mut paths: Vec<String> = Vec::new();
    let mut i: usize = 0;
    proof {
        assert(all.subrange(0, 0) =~= Seq::empty());
        assert(paths.deep_view() =~= Seq::empty());
    }
    while i < violations.len()
        invariant
            i <= violations.len(),
            all == violations.deep_view(),
            all.len() == violations.len(),
            paths.deep_view() == distinct_paths(all.subrange(0, i as int)),
            paths.len() <= i,
            forall|k: int| 0 <= k < i ==> can_be_numbered(#[trigger] all[k]),
        decreases violations.len() - i,
    {
        proof {
            let upto = all.subrange(0, i + 1);
            assert(upto.drop_last() =~= all.subrange(0, i as int));
            assert(upto.last() == violations[i as int]@);
        }
        if !check_numbering(&violations[i]) {
            assert(!can_be_numbered(all[i as int]));
            return None;
        }
        if !has_name(&paths, violations[i].file_path.as_str()) {
            let ghost before = paths.deep_view();
            let path = violations[i].file_path.clone();
            paths.push(path);
            assert(paths.deep_view() =~= before.push(path@));
        }
        i += 1;
    }
    proof {
        assert(all.subrange(0, i as int) =~= all);
    }
    let mut out = "Fix these code quality violations in my project:\n\nPROJECT: ".to_string();
    out.append(project.name.as_str());
    out.append(" (");
    if project.languages.len() == 0 {
        out.append("Unknown");
    } else {
        let ghost before = out@;
        let mut n: usize = 0;
        proof {
            assert(project.languages@.subrange(0, 0) =~= Seq::empty());
            assert(before + Seq::<char>::empty() =~= before);
        }
        while n < project.languages.len()
            invariant
                n <= project.languages.len(),
                out@ == before + language_titles(project.languages@.subrange(0, n as int)),
            decreases project.languages.len() - n,
        {
            proof {
                let upto = project.languages@.subrange(0, n + 1);
                assert(upto.drop_last() =~= project.languages@.subrange(0, n as int));
                assert(upto.last() == project.languages@[n as int]);
            }
            if n > 0 {
                out.append(", ");
            }
            out.append(project.languages[n].title());
            proof {
                assert(out@ =~= before + language_titles(project.languages@.subrange(0, n + 1)));
            }
            n += 1;
        }
        proof {
            assert(project.languages@.subrange(0, n as int) =~= project.languages@);
        }
    }
    out.append(")\nFILES AFFECTED: ");
    append_decimal(&mut out, paths.len());
    out.append(" files with ");
    append_decimal(&mut out, violations.len());
    out.append(" violations\n\nVIOLATIONS FOUND:\n\n");
    let ghost head = out@;
    let ghost names = paths.deep_view();
    let mut p: usize = 0;
    proof {
        assert(names.subrange(0, 0) =~= Seq::empty());
        assert(head + Seq::<char>::empty() =~= head);
    }
    while p < paths.len()
        invariant
            p <= paths.len(),
            all == violations.deep_view(),
            all.len() == violations.len(),
            names == paths.deep_view(),
            names.len() == paths.len(),
            forall|k: int| 0 <= k < all.len() ==> can_be_numbered(#[trigger] all[k]),
            out@ == head + all_blocks(all, names.subrange(0, p as int)),
        decreases paths.len() - p,
    {
        let ghost done = out@;
        proof {
            let upto = names.subrange(0, p + 1);
            assert(upto.drop_last() =~= names.subrange(0, p as int));
            assert(upto.last() == paths[p as int]@);
            assert(all.subrange(0, 0) =~= Seq::empty());
            assert(done + Seq::<char>::empty() =~= done);
        }
        let mut v: usize = 0;
        while v < violations.len()
            invariant
                v <= violations.len(),
                p < paths.len(),
                all == violations.deep_view(),
                all.len() == violations.len(),
                forall|k: int| 0 <= k < all.len() ==> can_be_numbered(#[trigger] all[k]),
                out@ == done + file_blocks(all.subrange(0, v as int), paths[p as int]@),
            decreases violations.len() - v,
        {
            proof {
                let upto = all.subrange(0, v + 1);
                assert(upto.drop_last() =~= all.subrange(0, v as int));
                assert(upto.last() == violations[v as int]@);
                assert(can_be_numbered(all[v as int]));
            }
            if same_text(violations[v].file_path.as_str(), paths[p].as_str()) {
                append_block(&mut out, &violations[v]);
            }
            proof {
                assert(out@ =~= done + file_blocks(all.subrange(0, v + 1), paths[p as int]@));
            }
            v += 1;
        }
        proof {
            assert(all.subrange(0, v as int) =~= all);
            assert(out@ =~= head + all_blocks(all, names.subrange(0, p + 1)));
        }
        p += 1;
    }
    proof {
        assert(names.subrange(0, p as int) =~= names);
    }
    out.append(
        "Please help me fix these issues interactively. Show me the problems and guide me through solutions.",
    );
    Some(out)
}

} // verus!
