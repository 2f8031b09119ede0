//! Unified-diff parsing.
//!
//! [`GitDiffParser::parse`] turns the text that `git diff` prints into one
//! [`FileDiff`] per file header, each with its added and removed lines, their
//! line numbers in the new version of the file, and up to three lines of
//! preceding context. The parser is a single forward pass over the lines of
//! the text; [`parse_diff`] states what it computes as a fold of [`step`] over
//! those lines.

use crate::text::{
    clone_strings, copy_range, find, find_first, has_prefix, lines, occurs_at, parse_usize, read_usize, rows,
    scan, scan_chars, split_lines, split_whitespace, starts_with, string_from_range, to_chars, tokens,
    Stop,
};
use core::convert::Infallible;
use vstd::prelude::*;
use vstd::string::StringExecFns;

verus! {

/// Which changes a diff is taken over.
#[derive(Debug, PartialEq)]
pub enum DiffScope {
    /// Changes in the working tree that are not staged.
    Unstaged,
    /// Changes that are staged for the next commit.
    Staged,
    /// Changes since the given commit, branch or tag.
    SinceCommit(String),
}

/// The mathematical value of a [`DiffScope`].
pub enum DiffScopeView {
    Unstaged,
    Staged,
    SinceCommit(Seq<char>),
}

impl View for DiffScope {
    type V = DiffScopeView;

    open spec fn view(&self) -> DiffScopeView {
        match *self {
            DiffScope::Unstaged => DiffScopeView::Unstaged,
            DiffScope::Staged => DiffScopeView::Staged,
            DiffScope::SinceCommit(reference) => DiffScopeView::SinceCommit(reference@),
        }
    }
}

/// How a line was changed.
#[derive(Debug, Clone, Copy, PartialEq, Eq, Structural)]
pub enum ChangeType {
    Added,
    Removed,
    /// Reserved; the parser never reports it.
    Modified,
}

/// One added or removed line of a diff.
#[derive(Debug)]
pub struct ChangedLine {
    /// For an added line, its 1-based number in the new version of the file;
    /// for a removed line, the number of the line that follows it there.
    pub line_number: usize,
    /// The text of the line without its `+` or `-`.
    pub content: String,
    pub change_type: ChangeType,
    /// Up to three unchanged lines that precede this one in its hunk.
    pub context_before: Vec<String>,
    /// Unchanged lines that follow; the parser leaves this empty.
    pub context_after: Vec<String>,
}

/// The changes to one file.
#[derive(Debug)]
pub struct FileDiff {
    pub path: String,
    pub added_lines: Vec<ChangedLine>,
    pub removed_lines: Vec<ChangedLine>,
}

/// A parsed diff: its files in the order of their headers. A path may occur
/// more than once.
#[derive(Debug)]
pub struct GitDiff {
    pub files: Vec<FileDiff>,
}

/// The diff parser; it holds no state.
pub struct GitDiffParser;

/// The mathematical value of a [`ChangedLine`].
pub struct ChangedLineView {
    pub line_number: usize,
    pub content: Seq<char>,
    pub change_type: ChangeType,
    pub context_before: Seq<Seq<char>>,
    pub context_after: Seq<Seq<char>>,
}

/// The mathematical value of a [`FileDiff`].
pub struct FileDiffView {
    pub path: Seq<char>,
    pub added_lines: Seq<ChangedLineView>,
    pub removed_lines: Seq<ChangedLineView>,
}

/// The mathematical value of a [`GitDiff`].
pub struct GitDiffView {
    pub files: Seq<FileDiffView>,
}

impl View for ChangedLine {
    type V = ChangedLineView;

    open spec fn view(&self) -> ChangedLineView {
        ChangedLineView {
            line_number: self.line_number,
            content: self.content@,
            change_type: self.change_type,
            context_before: self.context_before.deep_view(),
            context_after: self.context_after.deep_view(),
        }
    }
}

impl DeepView for ChangedLine {
    type V = ChangedLineView;

    open spec fn deep_view(&self) -> ChangedLineView {
        self@
    }
}

impl View for FileDiff {
    type V = FileDiffView;

    open spec fn view(&self) -> FileDiffView {
        FileDiffView {
            path: self.path@,
            added_lines: self.added_lines.deep_view(),
            removed_lines: self.removed_lines.deep_view(),
        }
    }
}

impl DeepView for FileDiff {
    type V = FileDiffView;

    open spec fn deep_view(&self) -> FileDiffView {
        self@
    }
}

impl View for GitDiff {
    type V = GitDiffView;

    open spec fn view(&self) -> GitDiffView {
        GitDiffView { files: self.files.deep_view() }
    }
}

impl DeepView for GitDiff {
    type V = GitDiffView;

    open spec fn deep_view(&self) -> GitDiffView {
        self@
    }
}

/// What a line of a diff is, decided by how it begins.
#[derive(Debug, Clone, Copy, PartialEq, Eq, Structural)]
pub enum LineKind {
    /// `diff --git ...`: a new file begins.
    FileHeader,
    /// `@@ ...`: a new hunk begins.
    HunkHeader,
    /// `+...` but not `+++...`.
    Added,
    /// `-...` but not `---...`.
    Removed,
    /// A line that begins with a space: unchanged text.
    Context,
    /// Anything else; it is skipped.
    Other,
}

/// Whether `line` begins with the character `c`.
pub open spec fn begins_with(line: Seq<char>, c: char) -> bool {
    line.len() > 0 && line[0] == c
}

/// The kind of a line. The tests are made in this order, and the first that
/// holds decides.
pub open spec fn classify(line: Seq<char>) -> LineKind {
    if has_prefix(line, "diff --git"@) {
        LineKind::FileHeader
    } else if has_prefix(line, "@@"@) {
        LineKind::HunkHeader
    } else if begins_with(line, '+') && !has_prefix(line, "+++"@) {
        LineKind::Added
    } else if begins_with(line, '-') && !has_prefix(line, "---"@) {
        LineKind::Removed
    } else if begins_with(line, ' ') {
        LineKind::Context
    } else {
        LineKind::Other
    }
}

/// The path that a file header names: its third word without the leading
/// `a/`, provided the header has at least four words and the third begins
/// with `a/`.
#[verifier::opaque]
pub open spec fn header_path(line: Seq<char>) -> Option<Seq<char>> {
    let words = tokens(line);
    if words.len() >= 4 && has_prefix(words[2], "a/"@) {
        Some(words[2].subrange(2, words[2].len() as int))
    } else {
        None
    }
}

/// The text in which a hunk header gives the first line of the new side: what
/// follows the first `" +"` of the line, up to the first comma after it, or,
/// if there is no comma, up to the first space. `None` if the line has no
/// `" +"`, or neither a comma nor a space after it.
#[verifier::opaque]
pub open spec fn hunk_start_text(line: Seq<char>) -> Option<Seq<char>> {
    match find(line, " +"@) {
        None => None,
        Some(plus) => {
            let rest = line.subrange(plus + 2, line.len() as int);
            let comma = scan(rest, 0, Stop::At(','));
            let space = scan(rest, 0, Stop::At(' '));
            if comma < rest.len() {
                Some(rest.subrange(0, comma))
            } else if space < rest.len() {
                Some(rest.subrange(0, space))
            } else {
                None
            }
        },
    }
}

/// The first line number of the new side that a hunk header gives, if it
/// gives one that can be read.
pub open spec fn hunk_start(line: Seq<char>) -> Option<usize> {
    match hunk_start_text(line) {
        Some(digits) => parse_usize(digits),
        None => None,
    }
}

/// The number after `n`; the largest number is followed by zero.
pub open spec fn next_number(n: usize) -> usize {
    if n == usize::MAX {
        0
    } else {
        (n + 1) as usize
    }
}

/// The context window after one more unchanged line: the last three.
pub open spec fn roll(context: Seq<Seq<char>>, line: Seq<char>) -> Seq<Seq<char>> {
    let grown = context.push(line);
    if grown.len() > 3 {
        grown.subrange(1, grown.len() as int)
    } else {
        grown
    }
}

/// What the parser knows between two lines.
pub struct ParseState {
    /// The files that are complete.
    pub files: Seq<FileDiffView>,
    /// The file whose lines are being read, if a header has opened one.
    pub current: Option<FileDiffView>,
    /// The number, in the new version of the file, of the next line.
    pub cursor: usize,
    /// The last unchanged lines of the current hunk, at most three.
    pub context: Seq<Seq<char>>,
}

/// The state before the first line.
pub open spec fn initial_state() -> ParseState {
    ParseState { files: Seq::empty(), current: None, cursor: 0, context: Seq::empty() }
}

/// The complete files, with the file in progress, if any, as the last.
pub open spec fn flushed(state: ParseState) -> Seq<FileDiffView> {
    match state.current {
        Some(file) => state.files.push(file),
        None => state.files,
    }
}

/// A file with no lines yet.
pub open spec fn empty_file(path: Seq<char>) -> FileDiffView {
    FileDiffView { path, added_lines: Seq::empty(), removed_lines: Seq::empty() }
}

/// The record of a changed line read in `state`; `line` still has its prefix.
pub open spec fn changed_line(state: ParseState, line: Seq<char>, change_type: ChangeType)
    -> ChangedLineView {
    ChangedLineView {
        line_number: state.cursor,
        content: line.subrange(1, line.len() as int),
        change_type,
        context_before: state.context,
        context_after: Seq::empty(),
    }
}

/// The state after reading one line.
pub open spec fn step(state: ParseState, line: Seq<char>) -> ParseState {
    match classify(line) {
        LineKind::FileHeader => ParseState {
            files: flushed(state),
            current: match header_path(line) {
                Some(path) => Some(empty_file(path)),
                None => None,
            },
            ..state
        },
        LineKind::HunkHeader => ParseState {
            cursor: match hunk_start(line) {
                Some(n) => n,
                None => 0,
            },
            context: Seq::empty(),
            ..state
        },
        LineKind::Added => ParseState {
            current: match state.current {
                Some(file) => Some(
                    FileDiffView {
                        added_lines: file.added_lines.push(
                            changed_line(state, line, ChangeType::Added),
                        ),
                        ..file
                    },
                ),
                None => None,
            },
            cursor: next_number(state.cursor),
            ..state
        },
        LineKind::Removed => ParseState {
            current: match state.current {
                Some(file) => Some(
                    FileDiffView {
                        removed_lines: file.removed_lines.push(
                            changed_line(state, line, ChangeType::Removed),
                        ),
                        ..file
                    },
                ),
                None => None,
            },
            ..state
        },
        LineKind::Context => ParseState {
            cursor: next_number(state.cursor),
            context: roll(state.context, line.subrange(1, line.len() as int)),
            ..state
        },
        LineKind::Other => state,
    }
}

/// The state after reading `lines` one after the other, starting in `state`.
pub open spec fn run(state: ParseState, lines: Seq<Seq<char>>) -> ParseState
    decreases lines.len(),
{
    if lines.len() == 0 {
        state
    } else {
        run(step(state, lines[0]), lines.drop_first())
    }
}

/// The diff that a text denotes.
pub open spec fn parse_diff(text: Seq<char>) -> GitDiffView {
    GitDiffView { files: flushed(run(initial_state(), lines(text))) }
}

impl Clone for DiffScope {
    fn clone(&self) -> (out: Self)
        ensures
            out@ == self@,
    {
        match self {
            DiffScope::Unstaged => DiffScope::Unstaged,
            DiffScope::Staged => DiffScope::Staged,
            DiffScope::SinceCommit(reference) => DiffScope::SinceCommit(reference.clone()),
        }
    }
}

impl Clone for ChangedLine {
    fn clone(&self) -> (out: Self)
        ensures
            out@ == self@,
    {
        ChangedLine {
            line_number: self.line_number,
            content: self.content.clone(),
            change_type: self.change_type,
            context_before: clone_strings(&self.context_before),
            context_after: clone_strings(&self.context_after),
        }
    }
}

impl Clone for FileDiff {
    fn clone(&self) -> (out: Self)
        ensures
            out@ == self@,
    {
        FileDiff {
            path: self.path.clone(),
            added_lines: clone_lines(&self.added_lines),
            removed_lines: clone_lines(&self.removed_lines),
        }
    }
}

impl Clone for GitDiff {
    fn clone(&self) -> (out: Self)
        ensures
            out@ == self@,
    {
        let mut files: Vec<FileDiff> = Vec::new();
        let mut i: usize = 0;
        while i < self.files.len()
            invariant
                i <= self.files.len(),
                files.deep_view() == self.files.deep_view().subrange(0, i as int),
            decreases self.files.len() - i,
        {
            let ghost before = files.deep_view();
            let file = self.files[i].clone();
            files.push(file);
            assert(files.deep_view() =~= before.push(file@));
            i += 1;
        }
        assert(self.files.deep_view().subrange(0, i as int) =~= self.files.deep_view());
        GitDiff { files }
    }
}

/// Copies a list of changed lines.
pub fn clone_lines(list: &Vec<ChangedLine>) -> (out: Vec<ChangedLine>)
    ensures
        out.deep_view() == list.deep_view(),
{
    let mut out: Vec<ChangedLine> = Vec::new();
    let mut i: usize = 0;
    while i < list.len()
        invariant
            i <= list.len(),
            out.deep_view() == list.deep_view().subrange(0, i as int),
        decreases list.len() - i,
    {
        let ghost before = out.deep_view();
        let item = list[i].clone();
        out.push(item);
        assert(out.deep_view() =~= before.push(item@));
        i += 1;
    }
    assert(list.deep_view().subrange(0, i as int) =~= list.deep_view());
    out
}


/// The command line that produces the diff for a scope.
pub open spec fn git_command(scope: DiffScopeView) -> Seq<char> {
    match scope {
        DiffScopeView::Unstaged => "git diff"@,
        DiffScopeView::Staged => "git diff --cached"@,
        DiffScopeView::SinceCommit(reference) => "git diff "@ + reference,
    }
}

/// The arguments with which git gives the diff for a scope.
pub open spec fn git_arguments(scope: DiffScopeView) -> Seq<Seq<char>> {
    match scope {
        DiffScopeView::Unstaged => seq!["diff"@],
        DiffScopeView::Staged => seq!["diff"@, "--cached"@],
        DiffScopeView::SinceCommit(reference) => seq!["diff"@, reference],
    }
}

/// The parser's working state while it reads lines.
struct Reader {
    files: Vec<FileDiff>,
    current: Option<FileDiff>,
    cursor: usize,
    context: Vec<String>,
}

impl View for Reader {
    type V = ParseState;

    closed spec fn view(&self) -> ParseState {
        ParseState {
            files: self.files.deep_view(),
            current: self.current.deep_view(),
            cursor: self.cursor,
            context: self.context.deep_view(),
        }
    }
}

impl Reader {
    fn new() -> (out: Self)
        ensures
            out@ == initial_state(),
    {
        let out = Reader { files: Vec::new(), current: None, cursor: 0, context: Vec::new() };
        assert(out.files.deep_view() =~= Seq::empty());
        assert(out.context.deep_view() =~= Seq::empty());
        out
    }

    /// Closes the file in progress and opens the one that `line` names.
    fn open_file(self, line: &Vec<char>) -> (out: Self)
        requires
            classify(line@) == LineKind::FileHeader,
        ensures
            out@ == step(self@, line@),
    {
        let mut files = self.files;
        match self.current {
            Some(file) => {
                let ghost before = files.deep_view();
                files.push(file);
                assert(files.deep_view() =~= before.push(file@));
            },
            None => {},
        }
        let current = match GitDiffParser::extract_file_path_chars(line) {
            Some(path) => {
                let file = FileDiff { path, added_lines: Vec::new(), removed_lines: Vec::new() };
                assert(file.added_lines.deep_view() =~= Seq::empty());
                assert(file.removed_lines.deep_view() =~= Seq::empty());
                Some(file)
            },
            None => None,
        };
        Reader { files, current, cursor: self.cursor, context: self.context }
    }

    /// Starts a hunk at the line number that `line` gives.
    fn open_hunk(self, line: &Vec<char>) -> (out: Self)
        requires
            classify(line@) == LineKind::HunkHeader,
        ensures
            out@ == step(self@, line@),
    {
        let cursor = match GitDiffParser::parse_hunk_header_chars(line) {
            Some(n) => n,
            None => 0,
        };
        let context: Vec<String> = Vec::new();
        assert(context.deep_view() =~= Seq::empty());
        Reader { files: self.files, current: self.current, cursor, context }
    }

    /// The record of the changed line `line`, read in this state.
    fn record(&self, line: &Vec<char>, change_type: ChangeType) -> (out: ChangedLine)
        requires
            line.len() > 0,
        ensures
            out@ == changed_line(self@, line@, change_type),
    {
        let out = ChangedLine {
            line_number: self.cursor,
            content: string_from_range(line, 1, line.len()),
            change_type,
            context_before: clone_strings(&self.context),
            context_after: Vec::new(),
        };
        assert(out.context_after.deep_view() =~= Seq::empty());
        out
    }

    /// Records an added line in the file in progress and moves on one line.
    fn add_line(self, line: &Vec<char>) -> (out: Self)
        requires
            classify(line@) == LineKind::Added,
        ensures
            out@ == step(self@, line@),
    {
        let record = self.record(line, ChangeType::Added);
        let current = match self.current {
            Some(file) => {
                let mut file = file;
                let ghost before = file.added_lines.deep_view();
                file.added_lines.push(record);
                assert(file.added_lines.deep_view() =~= before.push(record@));
                Some(file)
            },
            None => None,
        };
        Reader {
            files: self.files,
            current,
            cursor: following(self.cursor),
            context: self.context,
        }
    }

    /// Records a removed line in the file in progress.
    fn remove_line(self, line: &Vec<char>) -> (out: Self)
        requires
            classify(line@) == LineKind::Removed,
        ensures
            out@ == step(self@, line@),
    {
        let record = self.record(line, ChangeType::Removed);
        let current = match self.current {
            Some(file) => {
                let mut file = file;
                let ghost before = file.removed_lines.deep_view();
                file.removed_lines.push(record);
                assert(file.removed_lines.deep_view() =~= before.push(record@));
                Some(file)
            },
            None => None,
        };
        Reader { files: self.files, current, cursor: self.cursor, context: self.context }
    }

    /// Takes an unchanged line into the context window and moves on one line.
    fn keep_context(self, line: &Vec<char>) -> (out: Self)
        requires
            classify(line@) == LineKind::Context,
        ensures
            out@ == step(self@, line@),
    {
        let mut context = self.context;
        let ghost before = context.deep_view();
        let text = string_from_range(line, 1, line.len());
        context.push(text);
        assert(context.deep_view() =~= before.push(text@));
        if context.len() > 3 {
            let ghost grown = context.deep_view();
            context.remove(0);
            assert(context.deep_view() =~= grown.subrange(1, grown.len() as int));
        }
        Reader {
            files: self.files,
            current: self.current,
            cursor: following(self.cursor),
            context,
        }
    }

    /// Reads one line.
    fn feed(self, line: &Vec<char>) -> (out: Self)
        ensures
            out@ == step(self@, line@),
    {
        match GitDiffParser::classify_line(line) {
            LineKind::FileHeader => self.open_file(line),
            LineKind::HunkHeader => self.open_hunk(line),
            LineKind::Added => self.add_line(line),
            LineKind::Removed => self.remove_line(line),
            LineKind::Context => self.keep_context(line),
            LineKind::Other => self,
        }
    }

    /// The files read, the one in progress included.
    fn finish(self) -> (out: Vec<FileDiff>)
        ensures
            out.deep_view() == flushed(self@),
    {
        let mut files = self.files;
        match self.current {
            Some(file) => {
                let ghost before = files.deep_view();
                files.push(file);
                assert(files.deep_view() =~= before.push(file@));
            },
            None => {},
        }
        files
    }
}

/// Computes the number after `n`.
fn following(n: usize) -> (out: usize)
    ensures
        out == next_number(n),
{
    if n == usize::MAX {
        0
    } else {
        n + 1
    }
}

impl GitDiffParser {
    /// Parses the output of `git diff`. Never fails: what cannot be read is
    /// skipped.
    pub fn parse(diff_output: &str) -> (out: Result<GitDiff, Infallible>)
        ensures
            out matches Ok(diff) && diff@ == parse_diff(diff_output@),
    {
        let chars = to_chars(diff_output);
        let all = split_lines(&chars);
        let mut reader = Reader::new();
        let mut i: usize = 0;
        assert(rows(all@).skip(0) =~= rows(all@));
        while i < all.len()
            invariant
                i <= all.len(),
                run(initial_state(), rows(all@)) == run(reader@, rows(all@).skip(i as int)),
            decreases all.len() - i,
        {
            proof {
                let rest = rows(all@).skip(i as int);
                assert(rest[0] == all@[i as int]@);
                assert(rest.drop_first() =~= rows(all@).skip(i + 1));
            }
            reader = reader.feed(&all[i]);
            i += 1;
        }
        Ok(GitDiff { files: reader.finish() })
    }

    /// Decides what kind of line this is.
    pub fn classify_line(line: &Vec<char>) -> (kind: LineKind)
        ensures
            kind == classify(line@),
    {
        if starts_with(line, "diff --git") {
            LineKind::FileHeader
        } else if starts_with(line, "@@") {
            LineKind::HunkHeader
        } else if line.len() > 0 && line[0] == '+' && !starts_with(line, "+++") {
            LineKind::Added
        } else if line.len() > 0 && line[0] == '-' && !starts_with(line, "---") {
            LineKind::Removed
        } else if line.len() > 0 && line[0] == ' ' {
            LineKind::Context
        } else {
            LineKind::Other
        }
    }

    /// The command line that produces the diff for `scope`.
    pub fn build_git_command(scope: &DiffScope) -> (out: String)
        ensures
            out@ == git_command(scope@),
    {
        match scope {
            DiffScope::Unstaged => "git diff".to_string(),
            DiffScope::Staged => "git diff --cached".to_string(),
            DiffScope::SinceCommit(reference) => {
                let mut out = "git diff ".to_string();
                out.append(reference.as_str());
                out
            },
        }
    }

    /// The arguments with which git gives the diff for `scope`.
    pub fn build_git_arguments(scope: &DiffScope) -> (out: Vec<String>)
        ensures
            out.deep_view() == git_arguments(scope@),
    {
        let out = match scope {
            DiffScope::Unstaged => vec!["diff".to_string()],
            DiffScope::Staged => vec!["diff".to_string(), "--cached".to_string()],
            DiffScope::SinceCommit(reference) => vec!["diff".to_string(), reference.clone()],
        };
        assert(out.deep_view() =~= git_arguments(scope@));
        out
    }

    /// Reads the path out of a file header such as
    /// `diff --git a/src/lib.rs b/src/lib.rs`.
    pub fn extract_file_path(diff_line: &str) -> (out: Option<String>)
        ensures
            out.deep_view() == header_path(diff_line@),
    {
        let chars = to_chars(diff_line);
        Self::extract_file_path_chars(&chars)
    }

    /// Reads the first line number of the new side out of a hunk header such
    /// as `@@ -15,6 +15,9 @@`.
    pub fn parse_hunk_header(hunk_line: &str) -> (out: Option<usize>)
        ensures
            out == hunk_start(hunk_line@),
    {
        let chars = to_chars(hunk_line);
        Self::parse_hunk_header_chars(&chars)
    }

    fn extract_file_path_chars(line: &Vec<char>) -> (out: Option<String>)
        ensures
            out.deep_view() == header_path(line@),
    {
        reveal(header_path);
        let words = split_whitespace(line);
        if words.len() >= 4 {
            let word = &words[2];
            assert(rows(words@)[2] == word@);
            if starts_with(word, "a/") {
                proof {
                    reveal_strlit("a/");
                }
                return Some(string_from_range(word, 2, word.len()));
            }
        }
        None
    }

    fn parse_hunk_header_chars(line: &Vec<char>) -> (out: Option<usize>)
        ensures
            out == hunk_start(line@),
    {
        let marker = to_chars(" +");
        proof {
            reveal(hunk_start_text);
            reveal_strlit(" +");
        }
        match find_first(line, &marker) {
            None => None,
            Some(plus) => {
                let len = line.len();
                assert(plus + 2 <= len) by {
                    assert(marker@.len() == 2);
                    assert(occurs_at(line@, marker@, plus as int));
                }
                let rest = copy_range(line, plus + 2, len);
                let comma = scan_chars(&rest, 0, Stop::At(','));
                if comma < rest.len() {
                    read_usize(&rest, 0, comma)
                } else {
                    let space = scan_chars(&rest, 0, Stop::At(' '));
                    if space < rest.len() {
                        read_usize(&rest, 0, space)
                    } else {
                        None
                    }
                }
            },
        }
    }
}


/// Whether a line of a diff adds a line to a file: it begins with `+` but not
/// with `+++`.
pub open spec fn is_addition(line: Seq<char>) -> bool {
    begins_with(line, '+') && !has_prefix(line, "+++"@)
}

/// How many of `lines` are additions.
pub open spec fn count_additions(lines: Seq<Seq<char>>) -> nat
    decreases lines.len(),
{
    if lines.len() == 0 {
        0
    } else {
        (if is_addition(lines[0]) {
            1nat
        } else {
            0nat
        }) + count_additions(lines.drop_first())
    }
}

/// How many added lines the files hold together.
pub open spec fn added_total(files: Seq<FileDiffView>) -> nat
    decreases files.len(),
{
    if files.len() == 0 {
        0
    } else {
        added_total(files.drop_last()) + files.last().added_lines.len()
    }
}

/// How many of `lines` are additions that are read while no file is open,
/// when reading starts in `state`. Such a line belongs to no file and is
/// dropped: it stands before the first file header, or after a header from
/// which no path could be read.
pub open spec fn orphan_additions(state: ParseState, lines: Seq<Seq<char>>) -> nat
    decreases lines.len(),
{
    if lines.len() == 0 {
        0
    } else {
        (if is_addition(lines[0]) && state.current is None {
            1nat
        } else {
            0nat
        }) + orphan_additions(step(state, lines[0]), lines.drop_first())
    }
}

/// The additions are exactly the lines that the parser classifies as added.
pub proof fn lemma_addition_is_classified(line: Seq<char>)
    ensures
        is_addition(line) <==> classify(line) == LineKind::Added,
{
    reveal_strlit("diff --git");
    reveal_strlit("@@");
    reveal_strlit("+++");
    reveal_strlit("---");
    if begins_with(line, '+') {
        if has_prefix(line, "diff --git"@) {
            assert(line.subrange(0, 10)[0] == 'd');
        }
        if has_prefix(line, "@@"@) {
            assert(line.subrange(0, 2)[0] == '@');
        }
    }
}

/// Appending a file adds its added lines to the total.
pub proof fn lemma_added_total_push(files: Seq<FileDiffView>, file: FileDiffView)
    ensures
        added_total(files.push(file)) == added_total(files) + file.added_lines.len(),
{
    assert(files.push(file).drop_last() =~= files);
}

/// One step of the parser adds one line to the files if the line is an
/// addition and a file is open, and none otherwise.
pub proof fn lemma_step_added_total(state: ParseState, line: Seq<char>)
    ensures
        added_total(flushed(step(state, line))) == added_total(flushed(state)) + (if is_addition(line)
            && state.current is Some {
            1nat
        } else {
            0nat
        }),
{
    lemma_addition_is_classified(line);
    let after = step(state, line);
    match classify(line) {
        LineKind::FileHeader => {
            match header_path(line) {
                Some(path) => {
                    lemma_added_total_push(flushed(state), empty_file(path));
                },
                None => {},
            }
        },
        LineKind::Added => {
            match state.current {
                Some(file) => {
                    lemma_added_total_push(state.files, file);
                    lemma_added_total_push(state.files, after.current->0);
                },
                None => {},
            }
        },
        LineKind::Removed => {
            match state.current {
                Some(file) => {
                    lemma_added_total_push(state.files, file);
                    lemma_added_total_push(state.files, after.current->0);
                },
                None => {},
            }
        },
        _ => {},
    }
}

/// Reading lines accounts for every addition among them: each one is either
/// recorded in a file or read while no file is open.
pub proof fn lemma_run_accounts_for_additions(state: ParseState, lines: Seq<Seq<char>>)
    ensures
        added_total(flushed(run(state, lines))) + orphan_additions(state, lines) == added_total(
            flushed(state),
        ) + count_additions(lines),
    decreases lines.len(),
{
    if lines.len() > 0 {
        lemma_step_added_total(state, lines[0]);
        lemma_run_accounts_for_additions(step(state, lines[0]), lines.drop_first());
    }
}

/// Every line of a diff text that begins with `+` but not `+++` is either one
/// of the added lines of the parsed diff or was read while no file was open.
pub proof fn lemma_additions_accounted(text: Seq<char>)
    ensures
        added_total(parse_diff(text).files) + orphan_additions(initial_state(), lines(text))
            == count_additions(lines(text)),
{
    lemma_run_accounts_for_additions(initial_state(), lines(text));
}

/// In a diff text where no addition is read while no file is open, the parsed
/// files hold as many added lines as the text has lines that begin with `+`
/// but not `+++`.
pub proof fn lemma_added_line_count(text: Seq<char>)
    requires
        orphan_additions(initial_state(), lines(text)) == 0,
    ensures
        added_total(parse_diff(text).files) == count_additions(lines(text)),
{
    lemma_additions_accounted(text);
}


/// After a hunk header, one unchanged line and one addition, the addition is
/// recorded with the number after the one that the header gives.
pub proof fn lemma_number_after_one_context_line(
    state: ParseState,
    header: Seq<char>,
    unchanged: Seq<char>,
    addition: Seq<char>,
)
    requires
        state.current is Some,
        classify(header) == LineKind::HunkHeader,
        classify(unchanged) == LineKind::Context,
        classify(addition) == LineKind::Added,
    ensures
        ({
            let after = step(step(step(state, header), unchanged), addition);
            let start = match hunk_start(header) {
                Some(n) => n,
                None => 0,
            };
            &&& after.current is Some
            &&& after.current->0.added_lines.len() == state.current->0.added_lines.len() + 1
            &&& after.current->0.added_lines.last().line_number == next_number(start)
            &&& after.current->0.added_lines.last().context_before == seq![
                unchanged.subrange(1, unchanged.len() as int),
            ]
            &&& after.cursor == next_number(next_number(start))
        }),
{
    let start = match hunk_start(header) {
        Some(n) => n,
        None => 0,
    };
    let text = unchanged.subrange(1, unchanged.len() as int);
    let opened = step(state, header);
    assert(opened == ParseState { cursor: start, context: Seq::empty(), ..state });
    let read = step(opened, unchanged);
    assert(roll(Seq::empty(), text) =~= seq![text]);
    assert(read == ParseState { cursor: next_number(start), context: seq![text], ..opened });
    let after = step(read, addition);
    assert(after.current == Some(
        FileDiffView {
            added_lines: state.current->0.added_lines.push(
                changed_line(read, addition, ChangeType::Added),
            ),
            ..state.current->0
        },
    ));
}

/// Whether a recorded line is as the parser records lines of the given kind:
/// at most three lines of context before it, and none after it.
pub open spec fn recorded_as(line: ChangedLineView, change_type: ChangeType) -> bool {
    &&& line.change_type == change_type
    &&& line.context_before.len() <= 3
    &&& line.context_after.len() == 0
}

/// Whether the lines of a file are as the parser records them.
pub open spec fn file_recorded(file: FileDiffView) -> bool {
    &&& forall|i: int|
        0 <= i < file.added_lines.len() ==> recorded_as(
            #[trigger] file.added_lines[i],
            ChangeType::Added,
        )
    &&& forall|i: int|
        0 <= i < file.removed_lines.len() ==> recorded_as(
            #[trigger] file.removed_lines[i],
            ChangeType::Removed,
        )
}

/// Whether a state of the parser is in order: its context window holds at
/// most three lines, and the lines of its files are as the parser records
/// them.
pub open spec fn state_in_order(state: ParseState) -> bool {
    &&& state.context.len() <= 3
    &&& forall|i: int| 0 <= i < state.files.len() ==> file_recorded(#[trigger] state.files[i])
    &&& state.current matches Some(file) ==> file_recorded(file)
}

/// Reading a line keeps the state of the parser in order.
pub proof fn lemma_step_in_order(state: ParseState, line: Seq<char>)
    requires
        state_in_order(state),
    ensures
        state_in_order(step(state, line)),
{
    let after = step(state, line);
    match classify(line) {
        LineKind::FileHeader => {
            assert forall|i: int| 0 <= i < after.files.len() implies file_recorded(
                #[trigger] after.files[i],
            ) by {
                if i < state.files.len() {
                    assert(after.files[i] == state.files[i]);
                }
            }
        },
        _ => {},
    }
}

/// Reading lines keeps the state of the parser in order.
pub proof fn lemma_run_in_order(state: ParseState, lines: Seq<Seq<char>>)
    requires
        state_in_order(state),
    ensures
        state_in_order(run(state, lines)),
    decreases lines.len(),
{
    if lines.len() > 0 {
        lemma_step_in_order(state, lines[0]);
        lemma_run_in_order(step(state, lines[0]), lines.drop_first());
    }
}

/// In every parsed diff, the added lines are marked as added and the removed
/// lines as removed, each has at most three lines of context before it, and
/// none after it.
pub proof fn lemma_parsed_lines(text: Seq<char>)
    ensures
        forall|i: int|
            0 <= i < parse_diff(text).files.len() ==> file_recorded(
                #[trigger] parse_diff(text).files[i],
            ),
{
    lemma_run_in_order(initial_state(), lines(text));
    let end = run(initial_state(), lines(text));
    assert forall|i: int| 0 <= i < flushed(end).len() implies file_recorded(
        #[trigger] flushed(end)[i],
    ) by {
        if i < end.files.len() {
            assert(flushed(end)[i] == end.files[i]);
        }
    }
}

} // verus!
