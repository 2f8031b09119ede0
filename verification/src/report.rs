//! Reviewing a whole diff: the violations of all files, grouped by file and
//! summarized.

use crate::diff::{FileDiffView, GitDiff, GitDiffView};
use crate::registry::{first_index, lemma_first_index_is, lemma_first_index_none, RegistryView};
use crate::review::{clone_violations, file_violations, ReviewEngine, ReviewSummary,
    ReviewSummaryView, ReviewViolation, ReviewViolationView};
use crate::summary::summarize;
use core::convert::Infallible;
use vstd::prelude::*;

verus! {

/// The violations of one file.
#[derive(Debug)]
pub struct FileViolations {
    pub path: String,
    pub violations: Vec<ReviewViolation>,
}

/// The outcome of reviewing a diff.
#[derive(Debug)]
pub struct ReviewResult {
    /// All violations: file by file in the order of the diff, within a file
    /// line by line, and for a line in the order of the rules.
    pub violations: Vec<ReviewViolation>,
    /// The violations by path, for the paths that have any, in the order in
    /// which the paths first had some. Where a path occurs more than once in
    /// the diff, the violations of its last occurrence that has any stand
    /// here.
    pub files_with_violations: Vec<FileViolations>,
    pub summary: ReviewSummary,
}

/// The mathematical value of a [`ReviewResult`].
pub struct ReviewResultView {
    pub violations: Seq<ReviewViolationView>,
    pub files_with_violations: Seq<(Seq<char>, Seq<ReviewViolationView>)>,
    pub summary: ReviewSummaryView,
}

impl View for FileViolations {
    type V = (Seq<char>, Seq<ReviewViolationView>);

    open spec fn view(&self) -> (Seq<char>, Seq<ReviewViolationView>) {
        (self.path@, self.violations.deep_view())
    }
}

impl DeepView for FileViolations {
    type V = (Seq<char>, Seq<ReviewViolationView>);

    open spec fn deep_view(&self) -> (Seq<char>, Seq<ReviewViolationView>) {
        self@
    }
}

impl View for ReviewResult {
    type V = ReviewResultView;

    open spec fn view(&self) -> ReviewResultView {
        ReviewResultView {
            violations: self.violations.deep_view(),
            files_with_violations: self.files_with_violations.deep_view(),
            summary: self.summary@,
        }
    }
}

/// The paths of the groups, in order.
pub open spec fn group_paths(groups: Seq<(Seq<char>, Seq<ReviewViolationView>)>) -> Seq<Seq<char>> {
    groups.map_values(|group: (Seq<char>, Seq<ReviewViolationView>)| group.0)
}

/// The violations that the groups hold for a path, if they hold any.
pub open spec fn group_of(groups: Seq<(Seq<char>, Seq<ReviewViolationView>)>, path: Seq<char>)
    -> Option<Seq<ReviewViolationView>> {
    match first_index(group_paths(groups), path) {
        Some(at) => Some(groups[at].1),
        None => None,
    }
}

/// The groups after violations are put under a path, in the place of those
/// that were there, if any.
pub open spec fn group_put(
    groups: Seq<(Seq<char>, Seq<ReviewViolationView>)>,
    path: Seq<char>,
    violations: Seq<ReviewViolationView>,
) -> Seq<(Seq<char>, Seq<ReviewViolationView>)> {
    match first_index(group_paths(groups), path) {
        Some(at) => groups.update(at, (path, violations)),
        None => groups.push((path, violations)),
    }
}

/// The violations of the files, file by file.
pub open spec fn all_violations(registry: RegistryView, files: Seq<FileDiffView>) -> Seq<
    ReviewViolationView,
>
    decreases files.len(),
{
    if files.len() == 0 {
        Seq::empty()
    } else {
        all_violations(registry, files.drop_last()) + file_violations(
            registry,
            files.last().path,
            files.last().added_lines,
        )
    }
}

/// The violations of the files, grouped by path. A file without violations
/// makes no group and changes none.
pub open spec fn grouped(registry: RegistryView, files: Seq<FileDiffView>) -> Seq<
    (Seq<char>, Seq<ReviewViolationView>),
>
    decreases files.len(),
{
    if files.len() == 0 {
        Seq::empty()
    } else {
        let before = grouped(registry, files.drop_last());
        let found = file_violations(registry, files.last().path, files.last().added_lines);
        if found.len() > 0 {
            group_put(before, files.last().path, found)
        } else {
            before
        }
    }
}

/// The outcome of reviewing a diff with the rules of a registry: the added
/// lines of every file are tested, the removed lines are not.
pub open spec fn review(registry: RegistryView, diff: GitDiffView) -> ReviewResultView {
    ReviewResultView {
        violations: all_violations(registry, diff.files),
        files_with_violations: grouped(registry, diff.files),
        summary: summarize(all_violations(registry, diff.files)),
    }
}

/// What identifies a violation: the id of the rule, the path of the file and
/// the number of the line.
pub open spec fn violation_key(violation: ReviewViolationView) -> (Seq<char>, Seq<char>, usize) {
    (violation.rule.id, violation.file_path, violation.line_number)
}

/// The keys of the violations, in order.
pub open spec fn violation_keys(violations: Seq<ReviewViolationView>) -> Seq<
    (Seq<char>, Seq<char>, usize),
> {
    violations.map_values(|violation: ReviewViolationView| violation_key(violation))
}

/// Two reviews of the same diff with the same registry give
/// the same result, and so the same multiset of violation keys.
pub proof fn lemma_review_is_deterministic(
    registry: RegistryView,
    diff: GitDiffView,
    first: ReviewResultView,
    second: ReviewResultView,
)
    requires
        first == review(registry, diff),
        second == review(registry, diff),
    ensures
        first == second,
        violation_keys(first.violations).to_multiset() == violation_keys(
            second.violations,
        ).to_multiset(),
{
}

impl ReviewResult {
    /// The place of the group of a path.
    fn position(&self, path: &String) -> (out: Option<usize>)
        ensures
            match out {
                Some(at) => first_index(group_paths(self@.files_with_violations), path@) == Some(
                    at as int,
                ) && at < self.files_with_violations.len(),
                None => first_index(group_paths(self@.files_with_violations), path@) is None,
            },
    {
        let ghost paths = group_paths(self@.files_with_violations);
        let mut at: usize = 0;
        while at < self.files_with_violations.len()
            invariant
                at <= self.files_with_violations.len(),
                paths == group_paths(self@.files_with_violations),
                paths.len() == self.files_with_violations.len(),
                forall|k: int| 0 <= k < at ==> paths[k] != path@,
            decreases self.files_with_violations.len() - at,
        {
            if self.files_with_violations[at].path == *path {
                proof {
                    lemma_first_index_is(paths, path@, at as int);
                }
                return Some(at);
            }
            at += 1;
        }
        proof {
            lemma_first_index_none(paths, path@);
        }
        None
    }

    /// The violations of the file at `path`, if it has any.
    pub fn violations_in(&self, path: &str) -> (out: Option<&Vec<ReviewViolation>>)
        ensures
            out.deep_view() == group_of(self@.files_with_violations, path@),
    {
        let key = path.to_string();
        match self.position(&key) {
            Some(at) => Some(&self.files_with_violations[at].violations),
            None => None,
        }
    }

    /// Whether the file at `path` has violations.
    pub fn has_violations_in(&self, path: &str) -> (out: bool)
        ensures
            out == group_of(self@.files_with_violations, path@).is_some(),
    {
        self.violations_in(path).is_some()
    }
}

/// Puts the violations of a file under its path.
fn put_group(groups: &mut Vec<FileViolations>, path: String, violations: Vec<ReviewViolation>)
    ensures
        final(groups).deep_view() == group_put(
            old(groups).deep_view(),
            path@,
            violations.deep_view(),
        ),
{
    let ghost before = groups.deep_view();
    let ghost paths = group_paths(before);
    let mut at: usize = 0;
    while at < groups.len()
        invariant
            at <= groups.len(),
            *groups == *old(groups),
            before == groups.deep_view(),
            paths == group_paths(before),
            paths.len() == groups.len(),
            forall|k: int| 0 <= k < at ==> paths[k] != path@,
        decreases groups.len() - at,
    {
        if groups[at].path == path {
            proof {
                lemma_first_index_is(paths, path@, at as int);
            }
            let group = FileViolations { path, violations };
            groups.set(at, group);
            assert(groups.deep_view() =~= before.update(at as int, group@));
            return;
        }
        at += 1;
    }
    proof {
        lemma_first_index_none(paths, path@);
    }
    let group = FileViolations { path, violations };
    groups.push(group);
    assert(groups.deep_view() =~= before.push(group@));
}

impl ReviewEngine {
    /// Reviews a diff: tests the added lines of every file against the rules
    /// for that file, and reports the violations, grouped and summarized.
    pub fn review_git_diff(&self, git_diff: &GitDiff) -> (out: Result<ReviewResult, Infallible>)
        ensures
            out matches Ok(result) && result@ == review(self@, git_diff@),
    {
        let mut all: Vec<ReviewViolation> = Vec::new();
        let mut groups: Vec<FileViolations> = Vec::new();
        let ghost files = git_diff@.files;
        let mut i: usize = 0;
        proof {
            assert(all.deep_view() =~= Seq::empty());
            assert(groups.deep_view() =~= Seq::empty());
            assert(files.subrange(0, 0) =~= Seq::empty());
        }
        while i < git_diff.files.len()
            invariant
                i <= git_diff.files.len(),
                files == git_diff@.files,
                files.len() == git_diff.files.len(),
                all.deep_view() == all_violations(self@, files.subrange(0, i as int)),
                groups.deep_view() == grouped(self@, files.subrange(0, i as int)),
            decreases git_diff.files.len() - i,
        {
            let file = &git_diff.files[i];
            proof {
                let upto = files.subrange(0, i + 1);
                assert(upto.drop_last() =~= files.subrange(0, i as int));
                assert(upto.last() == file@);
            }
            let found = self.scan_lines(file.path.as_str(), file.added_lines.as_slice());
            if found.len() > 0 {
                let ghost before = all.deep_view();
                let mut copy = clone_violations(&found);
                put_group(&mut groups, file.path.clone(), found);
                all.append(&mut copy);
                assert(all.deep_view() =~= before + found.deep_view());
            } else {
                assert(all.deep_view() + found.deep_view() =~= all.deep_view());
            }
            i += 1;
        }
        proof {
            assert(files.subrange(0, i as int) =~= files);
        }
        let summary = self.create_review_summary(all.as_slice());
        Ok(ReviewResult { violations: all, files_with_violations: groups, summary })
    }
}

} // verus!
