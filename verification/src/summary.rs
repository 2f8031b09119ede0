//! Summaries over lists of violations: counts by severity, the files that
//! are affected, and the filter by severity.

use crate::pattern::{severity_rank, Severity};
use crate::review::{ReviewEngine, ReviewSummary, ReviewSummaryView, ReviewViolation,
    ReviewViolationView};
use crate::text::{same_text, to_chars};
use vstd::prelude::*;

verus! {

/// Whether `a` comes before `b` in the order of strings: at the first place
/// where they differ, `a` has the lesser character, or `a` ends there and `b`
/// does not.
pub open spec fn lex_less(a: Seq<char>, b: Seq<char>) -> bool
    decreases a.len(),
{
    if b.len() == 0 {
        false
    } else if a.len() == 0 {
        true
    } else if a[0] != b[0] {
        (a[0] as u32) < (b[0] as u32)
    } else {
        lex_less(a.drop_first(), b.drop_first())
    }
}

/// No string comes before itself.
pub proof fn lemma_lex_irreflexive(a: Seq<char>)
    ensures
        !lex_less(a, a),
    decreases a.len(),
{
    if a.len() > 0 {
        lemma_lex_irreflexive(a.drop_first());
    }
}

/// Of two different strings, one comes before the other.
pub proof fn lemma_lex_total(a: Seq<char>, b: Seq<char>)
    ensures
        a == b || lex_less(a, b) || lex_less(b, a),
        !(lex_less(a, b) && lex_less(b, a)),
    decreases a.len(),
{
    if a.len() > 0 && b.len() > 0 && a[0] == b[0] {
        lemma_lex_total(a.drop_first(), b.drop_first());
        if a.drop_first() == b.drop_first() {
            assert(a =~= seq![a[0]] + a.drop_first());
            assert(b =~= seq![b[0]] + b.drop_first());
        }
    } else if a.len() == 0 && b.len() == 0 {
        assert(a =~= b);
    } else if a.len() > 0 && b.len() > 0 {
        vstd::utf8::char_u32_cast(a[0], a[0] as u32);
        vstd::utf8::char_u32_cast(b[0], b[0] as u32);
    }
}

/// The order of strings is transitive.
pub proof fn lemma_lex_transitive(a: Seq<char>, b: Seq<char>, c: Seq<char>)
    requires
        lex_less(a, b),
        lex_less(b, c),
    ensures
        lex_less(a, c),
    decreases a.len(),
{
    if a.len() > 0 && b.len() > 0 && c.len() > 0 && a[0] == b[0] && b[0] == c[0] {
        lemma_lex_transitive(a.drop_first(), b.drop_first(), c.drop_first());
    }
}

/// Whether the strings stand in strictly ascending order.
pub open spec fn ascending(list: Seq<Seq<char>>) -> bool {
    forall|i: int, j: int| 0 <= i < j < list.len() ==> lex_less(list[i], list[j])
}

/// An ascending list with one more string, put where it belongs; a string
/// that the list already holds is not put in again.
pub open spec fn insert_sorted(sorted: Seq<Seq<char>>, item: Seq<char>) -> Seq<Seq<char>>
    decreases sorted.len(),
{
    if sorted.len() == 0 {
        seq![item]
    } else if sorted.last() == item {
        sorted
    } else if lex_less(sorted.last(), item) {
        sorted.push(item)
    } else {
        insert_sorted(sorted.drop_last(), item).push(sorted.last())
    }
}

/// The paths of the files in which the violations lie, in ascending order,
/// each once.
pub open spec fn affected_files(violations: Seq<ReviewViolationView>) -> Seq<Seq<char>>
    decreases violations.len(),
{
    if violations.len() == 0 {
        Seq::empty()
    } else {
        insert_sorted(affected_files(violations.drop_last()), violations.last().file_path)
    }
}

/// How many of the violations have the given severity.
pub open spec fn count_severity(violations: Seq<ReviewViolationView>, severity: Severity) -> nat
    decreases violations.len(),
{
    if violations.len() == 0 {
        0
    } else {
        count_severity(violations.drop_last(), severity) + (if violations.last().severity
            == severity {
            1nat
        } else {
            0nat
        })
    }
}

/// How many of the violations can be fixed by an assistant.
pub open spec fn count_fixable(violations: Seq<ReviewViolationView>) -> nat
    decreases violations.len(),
{
    if violations.len() == 0 {
        0
    } else {
        count_fixable(violations.drop_last()) + (if violations.last().auto_fixable {
            1nat
        } else {
            0nat
        })
    }
}

/// The summary of a list of violations.
pub open spec fn summarize(violations: Seq<ReviewViolationView>) -> ReviewSummaryView {
    ReviewSummaryView {
        total_violations: violations.len() as usize,
        critical_count: count_severity(violations, Severity::Critical) as usize,
        major_count: count_severity(violations, Severity::Major) as usize,
        warning_count: count_severity(violations, Severity::Warning) as usize,
        files_affected: affected_files(violations),
        auto_fixable_count: count_fixable(violations) as usize,
    }
}

/// The test of the severity filter: the severity stands at or after the
/// given one in the declared order `Critical < Major < Warning`.
pub open spec fn at_least(min_severity: Severity) -> spec_fn(ReviewViolationView) -> bool {
    |violation: ReviewViolationView|
        severity_rank(violation.severity) >= severity_rank(min_severity)
}

/// The counts are bounded by the number of violations, and every violation
/// has exactly one of the three severities.
pub proof fn lemma_counts(violations: Seq<ReviewViolationView>)
    ensures
        count_severity(violations, Severity::Critical) + count_severity(
            violations,
            Severity::Major,
        ) + count_severity(violations, Severity::Warning) == violations.len(),
        count_fixable(violations) <= violations.len(),
    decreases violations.len(),
{
    if violations.len() > 0 {
        lemma_counts(violations.drop_last());
    }
}

/// Putting a string into an ascending list gives an ascending list that
/// holds the string and what the list held, and nothing else.
pub proof fn lemma_insert_sorted(sorted: Seq<Seq<char>>, item: Seq<char>)
    requires
        ascending(sorted),
    ensures
        ascending(insert_sorted(sorted, item)),
        forall|x: Seq<char>| #[trigger]
            insert_sorted(sorted, item).contains(x) <==> (x == item || sorted.contains(x)),
    decreases sorted.len(),
{
    let out = insert_sorted(sorted, item);
    if sorted.len() == 0 {
        assert(out[0] == item);
        assert forall|x: Seq<char>| #[trigger] out.contains(x) <==> (x == item || sorted.contains(
            x,
        )) by {
            if out.contains(x) {
                let i = choose|i: int| 0 <= i < out.len() && out[i] == x;
                assert(i == 0);
            }
        }
    } else if sorted.last() == item {
        assert(sorted[sorted.len() - 1] == item);
    } else if lex_less(sorted.last(), item) {
        assert forall|i: int, j: int| 0 <= i < j < out.len() implies lex_less(out[i], out[j]) by {
            if j == sorted.len() {
                if i < sorted.len() - 1 {
                    lemma_lex_transitive(sorted[i], sorted.last(), item);
                }
            }
        }
        assert forall|x: Seq<char>| #[trigger] out.contains(x) <==> (x == item || sorted.contains(
            x,
        )) by {
            if out.contains(x) {
                let i = choose|i: int| 0 <= i < out.len() && out[i] == x;
                if i < sorted.len() {
                    assert(sorted[i] == x);
                }
            }
            if sorted.contains(x) {
                let i = choose|i: int| 0 <= i < sorted.len() && sorted[i] == x;
                assert(out[i] == x);
            }
            if x == item {
                assert(out[sorted.len() as int] == x);
            }
        }
    } else {
        let front = sorted.drop_last();
        let last = sorted.last();
        assert(ascending(front)) by {
            assert forall|i: int, j: int| 0 <= i < j < front.len() implies lex_less(
                front[i],
                front[j],
            ) by {
                assert(front[i] == sorted[i] && front[j] == sorted[j]);
            }
        }
        lemma_insert_sorted(front, item);
        let inner = insert_sorted(front, item);
        lemma_lex_total(last, item);
        assert(lex_less(item, last));
        assert forall|i: int, j: int| 0 <= i < j < out.len() implies lex_less(out[i], out[j]) by {
            if j == inner.len() {
                assert(inner.contains(inner[i]));
                if inner[i] != item {
                    let k = choose|k: int| 0 <= k < front.len() && front[k] == inner[i];
                    assert(sorted[k] == inner[i]);
                    assert(lex_less(sorted[k], sorted[sorted.len() - 1]));
                }
            }
        }
        assert forall|x: Seq<char>| #[trigger] out.contains(x) <==> (x == item || sorted.contains(
            x,
        )) by {
            if out.contains(x) {
                let i = choose|i: int| 0 <= i < out.len() && out[i] == x;
                if i < inner.len() {
                    assert(inner.contains(x));
                    if x != item {
                        let k = choose|k: int| 0 <= k < front.len() && front[k] == x;
                        assert(sorted[k] == x);
                    }
                } else {
                    assert(sorted[sorted.len() - 1] == x);
                }
            }
            if sorted.contains(x) {
                let i = choose|i: int| 0 <= i < sorted.len() && sorted[i] == x;
                if i < front.len() {
                    assert(front[i] == x);
                    assert(front.contains(x));
                    assert(inner.contains(x));
                    let k = choose|k: int| 0 <= k < inner.len() && inner[k] == x;
                    assert(out[k] == x);
                } else {
                    assert(out[inner.len() as int] == x);
                }
            }
            if x == item {
                assert(inner.contains(item));
                let k = choose|k: int| 0 <= k < inner.len() && inner[k] == item;
                assert(out[k] == x);
            }
        }
    }
}

/// An ascending list holds no string twice.
pub proof fn lemma_ascending_distinct(list: Seq<Seq<char>>)
    requires
        ascending(list),
    ensures
        list.no_duplicates(),
{
    assert forall|i: int, j: int| 0 <= i < list.len() && 0 <= j < list.len() && i != j implies list[i]
        != list[j] by {
        lemma_lex_irreflexive(list[i]);
        if i < j {
            assert(lex_less(list[i], list[j]));
        } else {
            assert(lex_less(list[j], list[i]));
        }
    }
}

/// The affected files are in strictly ascending order, none stands twice,
/// and they are exactly the paths of the violations.
pub proof fn lemma_affected_files(violations: Seq<ReviewViolationView>)
    ensures
        ascending(affected_files(violations)),
        affected_files(violations).no_duplicates(),
        forall|path: Seq<char>| #[trigger]
            affected_files(violations).contains(path) <==> exists|i: int|
                0 <= i < violations.len() && violations[i].file_path == path,
    decreases violations.len(),
{
    if violations.len() > 0 {
        let front = violations.drop_last();
        lemma_affected_files(front);
        lemma_insert_sorted(affected_files(front), violations.last().file_path);
        lemma_ascending_distinct(affected_files(violations));
        assert forall|path: Seq<char>| #[trigger]
            affected_files(violations).contains(path) <==> exists|i: int|
                0 <= i < violations.len() && violations[i].file_path == path by {
            if affected_files(violations).contains(path) {
                if path == violations.last().file_path {
                    assert(violations[violations.len() - 1].file_path == path);
                } else {
                    assert(affected_files(front).contains(path));
                    let i = choose|i: int| 0 <= i < front.len() && front[i].file_path == path;
                    assert(violations[i].file_path == path);
                }
            }
            if exists|i: int| 0 <= i < violations.len() && violations[i].file_path == path {
                let i = choose|i: int| 0 <= i < violations.len() && violations[i].file_path == path;
                if i < front.len() {
                    assert(front[i].file_path == path);
                }
            }
        }
    }
}


/// Tests whether `a` comes before `b` in the order of strings.
pub fn text_less(a: &str, b: &str) -> (out: bool)
    ensures
        out == lex_less(a@, b@),
{
    let x = to_chars(a);
    let y = to_chars(b);
    let mut i: usize = 0;
    proof {
        assert(x@.skip(0) =~= x@);
        assert(y@.skip(0) =~= y@);
    }
    loop
        invariant
            i <= x.len(),
            i <= y.len(),
            x@ == a@,
            y@ == b@,
            lex_less(a@, b@) == lex_less(x@.skip(i as int), y@.skip(i as int)),
        decreases x.len() - i,
    {
        if i >= y.len() {
            return false;
        }
        if i >= x.len() {
            return true;
        }
        if x[i] != y[i] {
            return (x[i] as u32) < (y[i] as u32);
        }
        proof {
            assert(x@.skip(i as int).drop_first() =~= x@.skip(i + 1));
            assert(y@.skip(i as int).drop_first() =~= y@.skip(i + 1));
        }
        i += 1;
    }
}

/// Puts a path into an ascending list of paths, unless it is there already.
pub fn insert_path(sorted: &mut Vec<String>, path: &str)
    ensures
        final(sorted).deep_view() == insert_sorted(old(sorted).deep_view(), path@),
{
    let ghost list = sorted.deep_view();
    let mut at: usize = sorted.len();
    proof {
        assert(list.subrange(0, at as int) =~= list);
        assert(insert_sorted(list, path@) + list.subrange(at as int, at as int) =~= insert_sorted(
            list,
            path@,
        ));
    }
    loop
        invariant
            at <= sorted.len(),
            list == sorted.deep_view(),
            list.len() == sorted.len(),
            *sorted == *old(sorted),
            insert_sorted(list, path@) == insert_sorted(list.subrange(0, at as int), path@)
                + list.subrange(at as int, list.len() as int),
        decreases at,
    {
        let ghost front = list.subrange(0, at as int);
        let ghost back = list.subrange(at as int, list.len() as int);
        if at == 0 {
            sorted.insert(0, path.to_string());
            proof {
                assert(sorted.deep_view() =~= seq![path@] + back);
            }
            return;
        }
        proof {
            assert(front.last() == list[at - 1]);
            assert(front.drop_last() =~= list.subrange(0, at - 1));
        }
        if same_text(sorted[at - 1].as_str(), path) {
            proof {
                assert(front + back =~= list);
            }
            return;
        }
        if text_less(sorted[at - 1].as_str(), path) {
            sorted.insert(at, path.to_string());
            proof {
                assert(sorted.deep_view() =~= front.push(path@) + back);
            }
            return;
        }
        proof {
            let shorter = list.subrange(0, at - 1);
            assert(insert_sorted(shorter, path@).push(list[at - 1]) + back =~= insert_sorted(
                shorter,
                path@,
            ) + list.subrange(at - 1, list.len() as int));
        }
        at -= 1;
    }
}

impl ReviewEngine {
    /// Counts the violations by severity, counts those that an assistant can
    /// fix, and lists the affected files in ascending order, each once.
    pub fn create_review_summary(&self, violations: &[ReviewViolation]) -> (out: ReviewSummary)
        ensures
            out@ == summarize(violations.deep_view()),
    {
        let ghost all = violations.deep_view();
        let mut critical_count: usize = 0;
        let mut major_count: usize = 0;
        let mut warning_count: usize = 0;
        let mut auto_fixable_count: usize = 0;
        let mut files_affected: Vec<String> = Vec::new();
        let mut i: usize = 0;
        proof {
            assert(all.subrange(0, 0) =~= Seq::empty());
            assert(files_affected.deep_view() =~= Seq::empty());
        }
        while i < violations.len()
            invariant
                i <= violations.len(),
                all == violations.deep_view(),
                all.len() == violations.len(),
                critical_count == count_severity(all.subrange(0, i as int), Severity::Critical),
                major_count == count_severity(all.subrange(0, i as int), Severity::Major),
                warning_count == count_severity(all.subrange(0, i as int), Severity::Warning),
                auto_fixable_count == count_fixable(all.subrange(0, i as int)),
                files_affected.deep_view() == affected_files(all.subrange(0, i as int)),
            decreases violations.len() - i,
        {
            let violation = &violations[i];
            proof {
                let upto = all.subrange(0, i + 1);
                assert(upto.drop_last() =~= all.subrange(0, i as int));
                assert(upto.last() == violation@);
                lemma_counts(all.subrange(0, i as int));
            }
            match violation.severity {
                Severity::Critical => {
                    critical_count += 1;
                },
                Severity::Major => {
                    major_count += 1;
                },
                Severity::Warning => {
                    warning_count += 1;
                },
            }
            if violation.auto_fixable {
                auto_fixable_count += 1;
            }
            insert_path(&mut files_affected, violation.file_path.as_str());
            i += 1;
        }
        proof {
            assert(all.subrange(0, i as int) =~= all);
        }
        ReviewSummary {
            total_violations: violations.len(),
            critical_count,
            major_count,
            warning_count,
            files_affected,
            auto_fixable_count,
        }
    }

    /// Keeps the violations whose severity stands at or after `min_severity`
    /// in the declared order `Critical < Major < Warning`. With `Major` as
    /// the bound this keeps `Major` and `Warning` and drops `Critical`.
    pub fn filter_violations_by_severity<'a>(
        &self,
        violations: &'a [ReviewViolation],
        min_severity: Severity,
    ) -> (out: Vec<&'a ReviewViolation>)
        ensures
            out.deep_view() == violations.deep_view().filter(at_least(min_severity)),
    {
        let ghost all = violations.deep_view();
        let ghost keep = at_least(min_severity);
        let mut out: Vec<&'a ReviewViolation> = Vec::new();
        let mut i: usize = 0;
        proof {
            reveal(Seq::filter);
            assert(out.deep_view() =~= Seq::empty());
            assert(all.subrange(0, 0) =~= Seq::empty());
        }
        while i < violations.len()
            invariant
                i <= violations.len(),
                all == violations.deep_view(),
                all.len() == violations.len(),
                keep == at_least(min_severity),
                out.deep_view() == all.subrange(0, i as int).filter(keep),
            decreases violations.len() - i,
        {
            let violation = &violations[i];
            proof {
                crate::registry::lemma_filter_push(all.subrange(0, i as int), violation@, keep);
                assert(all.subrange(0, i as int).push(violation@) =~= all.subrange(0, i + 1));
            }
            if violation.severity.rank() >= min_severity.rank() {
                let ghost before = out.deep_view();
                out.push(violation);
                assert(out.deep_view() =~= before.push(violation@));
            }
            i += 1;
        }
        proof {
            assert(all.subrange(0, i as int) =~= all);
        }
        out
    }
}

} // verus!
