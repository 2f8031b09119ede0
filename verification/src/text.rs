//! Character-level text utilities shared by the parser and the rule engine.
//!
//! Every function here is specified over `Seq<char>`, the view of `str` and
//! `String`.

use vstd::prelude::*;
use vstd::string::StringExecFns;

verus! {

/// `String::push` appends exactly one character to the end of the string.
pub assume_specification[ String::push ](s: &mut String, ch: char)
    ensures
        final(s)@ == old(s)@.push(ch),
;

/// Copies the characters of `s` into a vector.
pub fn to_chars(s: &str) -> (out: Vec<char>)
    ensures
        out@ == s@,
{
    let mut out: Vec<char> = Vec::new();
    for c in it: s.chars()
        invariant
            it.seq() == s@,
            out@ == it.seq().take(it.index()),
    {
        out.push(c);
    }
    out
}

/// Builds a string from the characters `chars[start..end]`.
pub fn string_from_range(chars: &Vec<char>, start: usize, end: usize) -> (out: String)
    requires
        start <= end <= chars.len(),
    ensures
        out@ == chars@.subrange(start as int, end as int),
{
    let mut out = String::new();
    let mut i: usize = start;
    while i < end
        invariant
            start <= i <= end <= chars.len(),
            out@ == chars@.subrange(start as int, i as int),
        decreases end - i,
    {
        out.push(chars[i]);
        i += 1;
    }
    out
}


/// A set of characters that a scan stops at.
#[derive(Clone, Copy, Debug, PartialEq, Eq, Structural)]
pub enum Stop {
    /// Exactly this character.
    At(char),
    /// Any character with the Unicode `White_Space` property.
    Whitespace,
    /// Any character without it.
    NonWhitespace,
}

/// The characters with the Unicode `White_Space` property.
pub open spec fn is_whitespace(c: char) -> bool {
    let n = c as u32;
    ||| 0x09 <= n <= 0x0D
    ||| n == 0x20
    ||| n == 0x85
    ||| n == 0xA0
    ||| n == 0x1680
    ||| 0x2000 <= n <= 0x200A
    ||| n == 0x2028
    ||| n == 0x2029
    ||| n == 0x202F
    ||| n == 0x205F
    ||| n == 0x3000
}

/// Whether a scan with the given stop set halts on `c`.
pub open spec fn stops(stop: Stop, c: char) -> bool {
    match stop {
        Stop::At(d) => c == d,
        Stop::Whitespace => is_whitespace(c),
        Stop::NonWhitespace => !is_whitespace(c),
    }
}

/// The first position at or after `from` whose character is in the stop set,
/// or `s.len()` if there is none.
pub open spec fn scan(s: Seq<char>, from: int, stop: Stop) -> int
    decreases s.len() - from,
{
    if from < 0 || from >= s.len() {
        s.len() as int
    } else if stops(stop, s[from]) {
        from
    } else {
        scan(s, from + 1, stop)
    }
}

/// `scan` lands in `from..=s.len()`, on a stop character unless it ran off the
/// end, and passes over none.
pub proof fn lemma_scan(s: Seq<char>, from: int, stop: Stop)
    requires
        0 <= from <= s.len(),
    ensures
        from <= scan(s, from, stop) <= s.len(),
        scan(s, from, stop) < s.len() ==> stops(stop, s[scan(s, from, stop)]),
        forall|k: int| from <= k < scan(s, from, stop) ==> !stops(stop, #[trigger] s[k]),
    decreases s.len() - from,
{
    if from < s.len() && !stops(stop, s[from]) {
        lemma_scan(s, from + 1, stop);
    }
}

/// A position that is on a stop character (or at the end), with none before
/// it since `from`, is where `scan` lands.
pub proof fn lemma_scan_unique(s: Seq<char>, from: int, stop: Stop, at: int)
    requires
        0 <= from <= at <= s.len(),
        at < s.len() ==> stops(stop, s[at]),
        forall|k: int| from <= k < at ==> !stops(stop, #[trigger] s[k]),
    ensures
        scan(s, from, stop) == at,
    decreases at - from,
{
    if from < at {
        lemma_scan_unique(s, from + 1, stop, at);
    }
}

/// Tests the Unicode `White_Space` property.
pub fn char_is_whitespace(c: char) -> (out: bool)
    ensures
        out == is_whitespace(c),
{
    let n: u32 = c as u32;
    (0x09 <= n && n <= 0x0D) || n == 0x20 || n == 0x85 || n == 0xA0 || n == 0x1680 || (0x2000 <= n
        && n <= 0x200A) || n == 0x2028 || n == 0x2029 || n == 0x202F || n == 0x205F || n == 0x3000
}

/// Tests membership in a stop set.
pub fn char_stops(stop: Stop, c: char) -> (out: bool)
    ensures
        out == stops(stop, c),
{
    match stop {
        Stop::At(d) => c == d,
        Stop::Whitespace => char_is_whitespace(c),
        Stop::NonWhitespace => !char_is_whitespace(c),
    }
}

/// Finds the first stop character at or after `from`.
pub fn scan_chars(chars: &Vec<char>, from: usize, stop: Stop) -> (at: usize)
    requires
        from <= chars.len(),
    ensures
        at == scan(chars@, from as int, stop),
        from <= at <= chars.len(),
{
    let mut at: usize = from;
    while at < chars.len() && !char_stops(stop, chars[at])
        invariant
            from <= at <= chars.len(),
            forall|k: int| from <= k < at ==> !stops(stop, #[trigger] chars@[k]),
        decreases chars.len() - at,
    {
        at += 1;
    }
    proof {
        lemma_scan_unique(chars@, from as int, stop, at as int);
    }
    at
}


/// `line` without one trailing carriage return, if it has one.
pub open spec fn strip_carriage_return(line: Seq<char>) -> Seq<char> {
    if line.len() > 0 && line.last() == '\r' {
        line.drop_last()
    } else {
        line
    }
}

/// The lines of `s` from position `from` on. A line ends at `\n` or `\r\n`;
/// the terminator is not part of the line. Text after the last `\n` is a line
/// of its own if it is not empty, kept as it is.
pub open spec fn lines_from(s: Seq<char>, from: int) -> Seq<Seq<char>>
    decreases s.len() - from,
    via lines_from_terminates
{
    if from < 0 || from >= s.len() {
        Seq::empty()
    } else {
        let end = scan(s, from, Stop::At('\n'));
        if end >= s.len() {
            seq![s.subrange(from, s.len() as int)]
        } else {
            seq![strip_carriage_return(s.subrange(from, end))] + lines_from(s, end + 1)
        }
    }
}

#[via_fn]
proof fn lines_from_terminates(s: Seq<char>, from: int) {
    if 0 <= from < s.len() {
        lemma_scan(s, from, Stop::At('\n'));
    }
}

/// The lines of `s`.
pub open spec fn lines(s: Seq<char>) -> Seq<Seq<char>> {
    lines_from(s, 0)
}

/// The views of a vector of character vectors.
pub open spec fn rows(v: Seq<Vec<char>>) -> Seq<Seq<char>> {
    v.map_values(|r: Vec<char>| r@)
}

/// Copies `chars[start..end]`.
pub fn copy_range(chars: &Vec<char>, start: usize, end: usize) -> (out: Vec<char>)
    requires
        start <= end <= chars.len(),
    ensures
        out@ == chars@.subrange(start as int, end as int),
{
    let mut out: Vec<char> = Vec::new();
    let mut i: usize = start;
    while i < end
        invariant
            start <= i <= end <= chars.len(),
            out@ == chars@.subrange(start as int, i as int),
        decreases end - i,
    {
        out.push(chars[i]);
        i += 1;
    }
    out
}

/// Splits text into lines.
pub fn split_lines(chars: &Vec<char>) -> (out: Vec<Vec<char>>)
    ensures
        rows(out@) == lines(chars@),
{
    let mut out: Vec<Vec<char>> = Vec::new();
    let mut from: usize = 0;
    while from < chars.len()
        invariant
            from <= chars.len(),
            lines(chars@) == rows(out@) + lines_from(chars@, from as int),
        decreases chars.len() - from,
    {
        let end = scan_chars(chars, from, Stop::At('\n'));
        let ghost before = rows(out@);
        if end >= chars.len() {
            let line = copy_range(chars, from, end);
            out.push(line);
            proof {
                assert(rows(out@) =~= before.push(line@));
                assert(lines_from(chars@, chars.len() as int) =~= Seq::<Seq<char>>::empty());
            }
            from = chars.len();
        } else {
            let stop = if end > from && chars[end - 1] == '\r' {
                end - 1
            } else {
                end
            };
            let line = copy_range(chars, from, stop);
            proof {
                let raw = chars@.subrange(from as int, end as int);
                assert(line@ =~= strip_carriage_return(raw));
            }
            out.push(line);
            proof {
                assert(rows(out@) =~= before.push(line@));
            }
            from = end + 1;
        }
    }
    proof {
        assert(lines_from(chars@, from as int) =~= Seq::<Seq<char>>::empty());
    }
    out
}


/// Whether `s` begins with `prefix`.
pub open spec fn has_prefix(s: Seq<char>, prefix: Seq<char>) -> bool {
    prefix.len() <= s.len() && s.subrange(0, prefix.len() as int) == prefix
}

/// Whether `needle` occurs in `s` at position `at`.
pub open spec fn occurs_at(s: Seq<char>, needle: Seq<char>, at: int) -> bool {
    0 <= at && at + needle.len() <= s.len() && s.subrange(at, at + needle.len()) == needle
}

/// Whether `needle` occurs somewhere in `s`.
pub open spec fn contains(s: Seq<char>, needle: Seq<char>) -> bool {
    exists|at: int| occurs_at(s, needle, at)
}

/// The position of the first occurrence of `needle` in `s`, if there is one.
pub open spec fn find(s: Seq<char>, needle: Seq<char>) -> Option<int> {
    if contains(s, needle) {
        Some(choose|at: int| occurs_at(s, needle, at) && forall|k: int| 0 <= k < at ==> !occurs_at(s, needle, k))
    } else {
        None
    }
}

/// Tests whether `needle` occurs in `chars` at position `at`.
pub fn matches_at(chars: &Vec<char>, needle: &Vec<char>, at: usize) -> (out: bool)
    ensures
        out == occurs_at(chars@, needle@, at as int),
{
    if needle.len() > chars.len() || at > chars.len() - needle.len() {
        return false;
    }
    let mut i: usize = 0;
    while i < needle.len()
        invariant
            i <= needle.len(),
            at + needle.len() <= chars.len(),
            forall|k: int| 0 <= k < i ==> chars@[at + k] == needle@[k],
        decreases needle.len() - i,
    {
        if chars[at + i] != needle[i] {
            proof {
                let sub = chars@.subrange(at as int, at + needle.len());
                assert(sub[i as int] != needle@[i as int]);
            }
            return false;
        }
        i += 1;
    }
    proof {
        assert(chars@.subrange(at as int, at + needle.len()) =~= needle@);
    }
    true
}

/// Tests whether `chars` begins with `prefix`.
pub fn starts_with(chars: &Vec<char>, prefix: &str) -> (out: bool)
    ensures
        out == has_prefix(chars@, prefix@),
{
    let needle = to_chars(prefix);
    matches_at(chars, &needle, 0)
}

/// Finds the first occurrence of `needle` in `chars`.
pub fn find_first(chars: &Vec<char>, needle: &Vec<char>) -> (out: Option<usize>)
    ensures
        out is Some <==> contains(chars@, needle@),
        out matches Some(at) ==> find(chars@, needle@) == Some(at as int),
        out matches Some(at) ==> occurs_at(chars@, needle@, at as int)
            && forall|k: int| 0 <= k < at ==> !occurs_at(chars@, needle@, k),
{
    if needle.len() > chars.len() {
        return None;
    }
    let last: usize = chars.len() - needle.len();
    let mut at: usize = 0;
    loop
        invariant
            last == chars.len() - needle.len(),
            at <= last,
            forall|k: int| 0 <= k < at ==> !occurs_at(chars@, needle@, k),
        decreases last - at,
    {
        if matches_at(chars, needle, at) {
            proof {
                lemma_find_is(chars@, needle@, at as int);
            }
            return Some(at);
        }
        if at == last {
            return None;
        }
        at += 1;
    }
}

/// The first occurrence is the one that `find` names.
pub proof fn lemma_find_is(s: Seq<char>, needle: Seq<char>, at: int)
    requires
        occurs_at(s, needle, at),
        forall|k: int| 0 <= k < at ==> !occurs_at(s, needle, k),
    ensures
        find(s, needle) == Some(at),
{
    let found = find(s, needle)->0;
    assert(occurs_at(s, needle, found) && forall|k: int|
        0 <= k < found ==> !occurs_at(s, needle, k));
    if found < at {
        assert(!occurs_at(s, needle, found));
    } else if at < found {
        assert(!occurs_at(s, needle, at));
    }
}


/// The whitespace-separated words of `s` from position `from` on.
pub open spec fn tokens_from(s: Seq<char>, from: int) -> Seq<Seq<char>>
    decreases s.len() - from,
    via tokens_from_terminates
{
    if from < 0 || from >= s.len() {
        Seq::empty()
    } else {
        let start = scan(s, from, Stop::NonWhitespace);
        if start >= s.len() {
            Seq::empty()
        } else {
            let end = scan(s, start, Stop::Whitespace);
            seq![s.subrange(start, end)] + tokens_from(s, end)
        }
    }
}

#[via_fn]
proof fn tokens_from_terminates(s: Seq<char>, from: int) {
    if 0 <= from < s.len() {
        lemma_scan(s, from, Stop::NonWhitespace);
        let start = scan(s, from, Stop::NonWhitespace);
        if start < s.len() {
            lemma_scan(s, start + 1, Stop::Whitespace);
        }
    }
}

/// The maximal runs of non-whitespace characters of `s`, in order.
pub open spec fn tokens(s: Seq<char>) -> Seq<Seq<char>> {
    tokens_from(s, 0)
}

/// Splits text at runs of whitespace.
pub fn split_whitespace(chars: &Vec<char>) -> (out: Vec<Vec<char>>)
    ensures
        rows(out@) == tokens(chars@),
{
    let mut out: Vec<Vec<char>> = Vec::new();
    let mut from: usize = 0;
    while from < chars.len()
        invariant
            from <= chars.len(),
            tokens(chars@) == rows(out@) + tokens_from(chars@, from as int),
        decreases chars.len() - from,
    {
        let start = scan_chars(chars, from, Stop::NonWhitespace);
        if start >= chars.len() {
            from = chars.len();
        } else {
            proof {
                lemma_scan(chars@, from as int, Stop::NonWhitespace);
                lemma_scan(chars@, start + 1, Stop::Whitespace);
            }
            let end = scan_chars(chars, start, Stop::Whitespace);
            let ghost before = rows(out@);
            let word = copy_range(chars, start, end);
            out.push(word);
            proof {
                assert(rows(out@) =~= before.push(word@));
            }
            from = end;
        }
    }
    out
}

/// Whether `c` is one of the ten ASCII digits.
pub open spec fn is_digit(c: char) -> bool {
    0x30 <= c as u32 <= 0x39
}

/// The number a digit stands for.
pub open spec fn digit_value(c: char) -> nat {
    (c as u32 - 0x30) as nat
}

/// The number that a run of digits denotes in base ten.
pub open spec fn decimal_value(digits: Seq<char>) -> nat
    decreases digits.len(),
{
    if digits.len() == 0 {
        0
    } else {
        decimal_value(digits.drop_last()) * 10 + digit_value(digits.last())
    }
}

/// Whether every character of `s` is a digit.
pub open spec fn all_digits(s: Seq<char>) -> bool {
    forall|i: int| 0 <= i < s.len() ==> is_digit(#[trigger] s[i])
}

/// `s` without one leading plus sign, if it has one.
pub open spec fn strip_plus(s: Seq<char>) -> Seq<char> {
    if s.len() > 0 && s[0] == '+' {
        s.subrange(1, s.len() as int)
    } else {
        s
    }
}

/// The unsigned number that `s` denotes: an optional `+`, then one or more
/// digits and nothing else.
pub open spec fn parse_unsigned(s: Seq<char>) -> Option<nat> {
    let digits = strip_plus(s);
    if digits.len() > 0 && all_digits(digits) {
        Some(decimal_value(digits))
    } else {
        None
    }
}

/// The number that `s` denotes, if it denotes one that fits in `usize`.
pub open spec fn parse_usize(s: Seq<char>) -> Option<usize> {
    match parse_unsigned(s) {
        Some(n) => if n <= usize::MAX {
            Some(n as usize)
        } else {
            None
        },
        None => None,
    }
}

/// A run of digits denotes no less than any of its prefixes.
pub proof fn lemma_decimal_value_prefix(digits: Seq<char>, n: int)
    requires
        0 <= n <= digits.len(),
    ensures
        decimal_value(digits.subrange(0, n)) <= decimal_value(digits),
    decreases digits.len(),
{
    if n == digits.len() {
        assert(digits.subrange(0, n) =~= digits);
    } else {
        lemma_decimal_value_prefix(digits.drop_last(), n);
        assert(digits.drop_last().subrange(0, n) =~= digits.subrange(0, n));
    }
}

/// Reads `chars[start..end]` as an unsigned decimal number.
pub fn read_usize(chars: &Vec<char>, start: usize, end: usize) -> (out: Option<usize>)
    requires
        start <= end <= chars.len(),
    ensures
        out == parse_usize(chars@.subrange(start as int, end as int)),
{
    let ghost s = chars@.subrange(start as int, end as int);
    let first: usize = if start < end && chars[start] == '+' {
        start + 1
    } else {
        start
    };
    let ghost digits = strip_plus(s);
    proof {
        assert(digits =~= chars@.subrange(first as int, end as int));
    }
    if first == end {
        return None;
    }
    let mut value: usize = 0;
    let mut i: usize = first;
    while i < end
        invariant
            start <= first <= i <= end <= chars.len(),
            first < end,
            s == chars@.subrange(start as int, end as int),
            digits == strip_plus(s),
            digits == chars@.subrange(first as int, end as int),
            all_digits(digits.subrange(0, i - first)),
            value == decimal_value(digits.subrange(0, i - first)),
        decreases end - i,
    {
        let c = chars[i];
        let n: u32 = c as u32;
        let ghost next = digits.subrange(0, i - first + 1);
        proof {
            assert(next.drop_last() =~= digits.subrange(0, i - first));
            assert(next.last() == c);
        }
        if n < 0x30 || n > 0x39 {
            proof {
                assert(!is_digit(digits[i - first]));
            }
            return None;
        }
        let d: usize = (n - 0x30) as usize;
        let scaled = match value.checked_mul(10) {
            Some(v) => v,
            None => {
                proof {
                    lemma_decimal_value_prefix(digits, i - first + 1);
                }
                return None;
            },
        };
        let sum = match scaled.checked_add(d) {
            Some(v) => v,
            None => {
                proof {
                    lemma_decimal_value_prefix(digits, i - first + 1);
                }
                return None;
            },
        };
        proof {
            assert forall|k: int| 0 <= k < next.len() implies is_digit(#[trigger] next[k]) by {
                if k < next.len() - 1 {
                    assert(next[k] == digits.subrange(0, i - first)[k]);
                }
            }
        }
        value = sum;
        i += 1;
    }
    proof {
        assert(digits.subrange(0, end - first) =~= digits);
    }
    Some(value)
}


/// Tests whether two vectors hold the same characters.
pub fn same_chars(a: &Vec<char>, b: &Vec<char>) -> (out: bool)
    ensures
        out == (a@ == b@),
{
    if a.len() != b.len() {
        return false;
    }
    let out = matches_at(a, b, 0);
    proof {
        assert(a@.subrange(0, a@.len() as int) =~= a@);
    }
    out
}

/// Tests whether two strings hold the same characters.
pub fn same_text(a: &str, b: &str) -> (out: bool)
    ensures
        out == (a@ == b@),
{
    let x = to_chars(a);
    let y = to_chars(b);
    same_chars(&x, &y)
}


/// What `str::to_lowercase` makes of a text: its lower-case form by the
/// Unicode case mappings.
pub uninterp spec fn lowercase(s: Seq<char>) -> Seq<char>;

/// Calls `str::to_lowercase`, which maps each character to its Unicode
/// lower-case form.
#[verifier::external_body]
pub(crate) fn to_lowercase(s: &str) -> (out: String)
    ensures
        out@ == lowercase(s@),
{
    s.to_lowercase()
}

/// Whether `char::is_alphanumeric` holds of a character: it is a letter or
/// a number by its Unicode properties.
pub uninterp spec fn alphanumeric(c: char) -> bool;

/// Calls `char::is_alphanumeric`, which tests the Unicode properties
/// `Alphabetic` and the number categories.
#[verifier::external_body]
pub(crate) fn is_alphanumeric(c: char) -> (out: bool)
    ensures
        out == alphanumeric(c),
{
    c.is_alphanumeric()
}

/// The position of the last `c` in `s`, or -1 if there is none.
pub open spec fn last_index(s: Seq<char>, c: char) -> int
    decreases s.len(),
{
    if s.len() == 0 {
        -1
    } else if s.last() == c {
        s.len() - 1
    } else {
        last_index(s.drop_last(), c)
    }
}

/// `last_index` is below the length, on a `c` unless it is -1, and no `c`
/// comes after it.
pub proof fn lemma_last_index(s: Seq<char>, c: char)
    ensures
        -1 <= last_index(s, c) < s.len(),
        last_index(s, c) >= 0 ==> s[last_index(s, c)] == c,
        forall|k: int| last_index(s, c) < k < s.len() ==> #[trigger] s[k] != c,
    decreases s.len(),
{
    if s.len() > 0 && s.last() != c {
        lemma_last_index(s.drop_last(), c);
        assert forall|k: int| last_index(s, c) < k < s.len() implies #[trigger] s[k] != c by {
            if k < s.len() - 1 {
                assert(s.drop_last()[k] == s[k]);
            }
        }
    }
}

/// A position that holds `c` (or -1), with no `c` after it, is the last.
pub proof fn lemma_last_index_unique(s: Seq<char>, c: char, at: int)
    requires
        -1 <= at < s.len(),
        at >= 0 ==> s[at] == c,
        forall|k: int| at < k < s.len() ==> #[trigger] s[k] != c,
    ensures
        last_index(s, c) == at,
    decreases s.len(),
{
    if s.len() > 0 && at < s.len() - 1 {
        assert(s[s.len() - 1] != c);
        assert forall|k: int| at < k < s.drop_last().len() implies #[trigger] s.drop_last()[k]
            != c by {
            assert(s.drop_last()[k] == s[k]);
        }
        lemma_last_index_unique(s.drop_last(), c, at);
    }
}

/// Finds the last `c` in `chars[..end]`; `None` if there is none.
pub fn find_last(chars: &Vec<char>, end: usize, c: char) -> (out: Option<usize>)
    requires
        end <= chars.len(),
    ensures
        match out {
            Some(at) => at == last_index(chars@.subrange(0, end as int), c),
            None => last_index(chars@.subrange(0, end as int), c) == -1,
        },
{
    let ghost s = chars@.subrange(0, end as int);
    let mut at: usize = end;
    while at > 0
        invariant
            at <= end <= chars.len(),
            s == chars@.subrange(0, end as int),
            forall|k: int| at <= k < end ==> #[trigger] s[k] != c,
        decreases at,
    {
        if chars[at - 1] == c {
            proof {
                lemma_last_index_unique(s, c, at - 1);
            }
            return Some(at - 1);
        }
        at -= 1;
    }
    proof {
        lemma_last_index_unique(s, c, -1);
    }
    None
}

/// The file name of a path, looking at its first `end` characters: the last
/// of its `/`-separated components that is neither empty nor `.`, unless that
/// component is `..`.
pub open spec fn file_name_within(path: Seq<char>, end: int) -> Option<Seq<char>>
    decreases end,
    via file_name_within_terminates
{
    if end <= 0 || end > path.len() {
        None
    } else {
        let slash = last_index(path.subrange(0, end), '/');
        let component = path.subrange(slash + 1, end);
        if component.len() == 0 || component == seq!['.'] {
            if slash < 0 {
                None
            } else {
                file_name_within(path, slash)
            }
        } else if component == seq!['.', '.'] {
            None
        } else {
            Some(component)
        }
    }
}

#[via_fn]
proof fn file_name_within_terminates(path: Seq<char>, end: int) {
    if 0 < end <= path.len() {
        lemma_last_index(path.subrange(0, end), '/');
    }
}

/// The file name of a path.
pub open spec fn file_name(path: Seq<char>) -> Option<Seq<char>> {
    file_name_within(path, path.len() as int)
}

/// The extension of a file name: what follows its last dot, provided it has a
/// dot that is not its first character.
pub open spec fn name_extension(name: Seq<char>) -> Option<Seq<char>> {
    let dot = last_index(name, '.');
    if dot <= 0 {
        None
    } else {
        Some(name.subrange(dot + 1, name.len() as int))
    }
}

/// The extension of the file that a path names, without its dot.
pub open spec fn extension(path: Seq<char>) -> Option<Seq<char>> {
    match file_name(path) {
        Some(name) => name_extension(name),
        None => None,
    }
}

/// Finds the file name of a path.
pub fn path_file_name(path: &Vec<char>) -> (out: Option<Vec<char>>)
    ensures
        out.deep_view() == file_name(path@),
{
    let mut end: usize = path.len();
    while end > 0
        invariant
            end <= path.len(),
            file_name(path@) == file_name_within(path@, end as int),
        decreases end,
    {
        let slash = find_last(path, end, '/');
        let start: usize = match slash {
            Some(at) => {
                proof {
                    lemma_last_index(path@.subrange(0, end as int), '/');
                }
                at + 1
            },
            None => 0,
        };
        proof {
            lemma_last_index(path@.subrange(0, end as int), '/');
        }
        let component = copy_range(path, start, end);
        let skip = component.len() == 0 || (component.len() == 1 && component[0] == '.');
        proof {
            if component.len() == 1 && component[0] == '.' {
                assert(component@ =~= seq!['.']);
            }
        }
        if skip {
            match slash {
                Some(at) => {
                    end = at;
                },
                None => {
                    return None;
                },
            }
        } else if component.len() == 2 && component[0] == '.' && component[1] == '.' {
            proof {
                assert(component@ =~= seq!['.', '.']);
            }
            return None;
        } else {
            proof {
                if component@ == seq!['.', '.'] {
                    assert(component@[0] == '.' && component@[1] == '.');
                }
                if component@ == seq!['.'] {
                    assert(component@[0] == '.');
                }
            }
            return Some(component);
        }
    }
    None
}

/// Finds the extension of the file that a path names.
pub fn path_extension(path: &str) -> (out: Option<String>)
    ensures
        out.deep_view() == extension(path@),
{
    let chars = to_chars(path);
    match path_file_name(&chars) {
        None => None,
        Some(name) => {
            proof {
                assert(name.deep_view() =~= name@);
                assert(name@.subrange(0, name@.len() as int) =~= name@);
                lemma_last_index(name@, '.');
            }
            match find_last(&name, name.len(), '.') {
                None => None,
                Some(dot) => {
                    if dot == 0 {
                        None
                    } else {
                        Some(string_from_range(&name, dot + 1, name.len()))
                    }
                },
            }
        },
    }
}


/// Tests whether the lower-case form of `text` contains `needle`.
pub fn contains_ignoring_case(text: &str, needle: &Vec<char>) -> (out: bool)
    ensures
        out == contains(lowercase(text@), needle@),
{
    let lowered = to_chars(to_lowercase(text).as_str());
    find_first(&lowered, needle).is_some()
}


/// `s` without the whitespace at its start.
pub open spec fn trim_start(s: Seq<char>) -> Seq<char> {
    s.subrange(scan(s, 0, Stop::NonWhitespace), s.len() as int)
}

/// `s` without the whitespace at its end.
pub open spec fn trim_end(s: Seq<char>) -> Seq<char>
    decreases s.len(),
{
    if s.len() > 0 && is_whitespace(s.last()) {
        trim_end(s.drop_last())
    } else {
        s
    }
}

/// `s` without the whitespace at its start and at its end.
pub open spec fn trim(s: Seq<char>) -> Seq<char> {
    trim_end(trim_start(s))
}

/// Removes the whitespace at the start and at the end.
pub fn trim_chars(chars: &Vec<char>) -> (out: Vec<char>)
    ensures
        out@ == trim(chars@),
{
    let start = scan_chars(chars, 0, Stop::NonWhitespace);
    let mut end: usize = chars.len();
    while end > start && char_is_whitespace(chars[end - 1])
        invariant
            start <= end <= chars.len(),
            trim(chars@) == trim_end(chars@.subrange(start as int, end as int)),
        decreases end,
    {
        proof {
            let held = chars@.subrange(start as int, end as int);
            assert(held.last() == chars@[end - 1]);
            assert(held.drop_last() =~= chars@.subrange(start as int, end - 1));
        }
        end -= 1;
    }
    proof {
        let held = chars@.subrange(start as int, end as int);
        if end > start {
            assert(held.last() == chars@[end - 1]);
        }
    }
    copy_range(chars, start, end)
}

/// The character that stands for a digit.
pub open spec fn digit_char(digit: nat) -> char {
    if digit == 0 {
        '0'
    } else if digit == 1 {
        '1'
    } else if digit == 2 {
        '2'
    } else if digit == 3 {
        '3'
    } else if digit == 4 {
        '4'
    } else if digit == 5 {
        '5'
    } else if digit == 6 {
        '6'
    } else if digit == 7 {
        '7'
    } else if digit == 8 {
        '8'
    } else {
        '9'
    }
}

/// A number written in base ten, without leading zeros.
pub open spec fn decimal_text(n: nat) -> Seq<char>
    decreases n,
{
    if n < 10 {
        seq![digit_char(n)]
    } else {
        decimal_text(n / 10).push(digit_char(n % 10))
    }
}

/// Computes the character that stands for a digit.
pub fn digit_to_char(digit: usize) -> (out: char)
    requires
        digit < 10,
    ensures
        out == digit_char(digit as nat),
{
    if digit == 0 {
        '0'
    } else if digit == 1 {
        '1'
    } else if digit == 2 {
        '2'
    } else if digit == 3 {
        '3'
    } else if digit == 4 {
        '4'
    } else if digit == 5 {
        '5'
    } else if digit == 6 {
        '6'
    } else if digit == 7 {
        '7'
    } else if digit == 8 {
        '8'
    } else {
        '9'
    }
}

/// Appends a number, written in base ten, to a string.
pub fn append_decimal(out: &mut String, n: usize)
    ensures
        final(out)@ == old(out)@ + decimal_text(n as nat),
    decreases n,
{
    if n < 10 {
        out.push(digit_to_char(n));
        assert(out@ =~= old(out)@ + decimal_text(n as nat));
    } else {
        append_decimal(out, n / 10);
        out.push(digit_to_char(n % 10));
        assert(out@ =~= old(out)@ + decimal_text(n as nat));
    }
}

/// Writes a number in base ten.
pub fn decimal_string(n: usize) -> (out: String)
    ensures
        out@ == decimal_text(n as nat),
{
    let mut out = String::new();
    append_decimal(&mut out, n);
    assert(Seq::<char>::empty() + decimal_text(n as nat) =~= decimal_text(n as nat));
    out
}

/// The texts, one after the other, with the separator between them.
pub open spec fn join(parts: Seq<Seq<char>>, separator: Seq<char>) -> Seq<char>
    decreases parts.len(),
{
    if parts.len() == 0 {
        Seq::empty()
    } else if parts.len() == 1 {
        parts[0]
    } else {
        join(parts.drop_last(), separator) + separator + parts.last()
    }
}

/// Joins character vectors with a separator between them.
pub fn join_rows(parts: &Vec<Vec<char>>, separator: &str) -> (out: String)
    ensures
        out@ == join(rows(parts@), separator@),
{
    let mut out = String::new();
    let mut i: usize = 0;
    assert(rows(parts@).subrange(0, 0) =~= Seq::empty());
    while i < parts.len()
        invariant
            i <= parts.len(),
            out@ == join(rows(parts@).subrange(0, i as int), separator@),
        decreases parts.len() - i,
    {
        proof {
            let upto = rows(parts@).subrange(0, i + 1);
            assert(upto.drop_last() =~= rows(parts@).subrange(0, i as int));
            assert(upto.last() == parts@[i as int]@);
        }
        if i > 0 {
            out.append(separator);
        }
        let ghost before = out@;
        let part = string_from_range(&parts[i], 0, parts[i].len());
        assert(part@ =~= parts@[i as int]@);
        out.append(part.as_str());
        assert(out@ =~= before + parts@[i as int]@);
        i += 1;
    }
    assert(rows(parts@).subrange(0, i as int) =~= rows(parts@));
    out
}


/// Copies a list of strings.
pub fn clone_strings(list: &Vec<String>) -> (out: Vec<String>)
    ensures
        out.deep_view() == list.deep_view(),
{
    let mut out: Vec<String> = Vec::new();
    let mut i: usize = 0;
    while i < list.len()
        invariant
            i <= list.len(),
            out.deep_view() == list.deep_view().subrange(0, i as int),
        decreases list.len() - i,
    {
        let ghost before = out.deep_view();
        let item = list[i].clone();
        out.push(item);
        assert(out.deep_view() =~= before.push(item@));
        i += 1;
    }
    assert(list.deep_view().subrange(0, i as int) =~= list.deep_view());
    out
}

} // verus!
