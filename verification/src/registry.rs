//! The rule registry: the loaded rules, found by id, by language and by file
//! extension, with a cache of their compiled expressions.

use crate::matcher::{compile, compiled};
use crate::pattern::{has_extension, AntiPattern, AntiPatternView, DetectionMethod,
    DetectionMethodView, Language};
use crate::text::{contains, extension, lowercase};
use regex::Regex;
use vstd::prelude::*;

verus! {

/// One entry of the by-language index: a rule id, filed under a language.
pub struct IndexEntry {
    pub language: Language,
    pub id: String,
}

/// One entry of the cache: the compiled expression of the rule with this id.
pub struct CompiledPattern {
    pub id: String,
    pub regex: Regex,
}

impl View for IndexEntry {
    type V = (Language, Seq<char>);

    open spec fn view(&self) -> (Language, Seq<char>) {
        (self.language, self.id@)
    }
}

impl DeepView for IndexEntry {
    type V = (Language, Seq<char>);

    open spec fn deep_view(&self) -> (Language, Seq<char>) {
        self@
    }
}

impl View for CompiledPattern {
    type V = (Seq<char>, Regex);

    open spec fn view(&self) -> (Seq<char>, Regex) {
        (self.id@, self.regex)
    }
}

impl DeepView for CompiledPattern {
    type V = (Seq<char>, Regex);

    open spec fn deep_view(&self) -> (Seq<char>, Regex) {
        self@
    }
}

/// The rules that are loaded, with the indexes over them.
pub struct PatternRegistry {
    patterns: Vec<AntiPattern>,
    by_language: Vec<IndexEntry>,
    compiled_patterns: Vec<CompiledPattern>,
}

/// The mathematical value of a [`PatternRegistry`].
pub struct RegistryView {
    /// The rules, in the order in which their ids were first added. No two
    /// have the same id.
    pub rules: Seq<AntiPatternView>,
    /// One entry for each rule that was ever added, in order: its language
    /// and its id. An id that was added twice stands here twice.
    pub index: Seq<(Language, Seq<char>)>,
    /// The compiled expressions, by rule id, in the order in which their ids
    /// were first compiled.
    pub compiled: Seq<(Seq<char>, Regex)>,
}

/// The first position at which `key` stands in `keys`.
pub open spec fn first_index(keys: Seq<Seq<char>>, key: Seq<char>) -> Option<int>
    decreases keys.len(),
{
    if keys.len() == 0 {
        None
    } else {
        match first_index(keys.drop_last(), key) {
            Some(at) => Some(at),
            None => if keys.last() == key {
                Some(keys.len() - 1)
            } else {
                None
            },
        }
    }
}

/// `first_index` finds the key where it first stands, and finds nothing only
/// where the key stands nowhere.
pub proof fn lemma_first_index(keys: Seq<Seq<char>>, key: Seq<char>)
    ensures
        match first_index(keys, key) {
            Some(at) => 0 <= at < keys.len() && keys[at] == key && forall|k: int|
                0 <= k < at ==> keys[k] != key,
            None => forall|k: int| 0 <= k < keys.len() ==> keys[k] != key,
        },
    decreases keys.len(),
{
    if keys.len() > 0 {
        lemma_first_index(keys.drop_last(), key);
        match first_index(keys.drop_last(), key) {
            Some(at) => {
                assert(keys.drop_last()[at] == keys[at]);
                assert forall|k: int| 0 <= k < at implies keys[k] != key by {
                    assert(keys.drop_last()[k] == keys[k]);
                }
            },
            None => {
                assert forall|k: int| 0 <= k < keys.len() - 1 implies keys[k] != key by {
                    assert(keys.drop_last()[k] == keys[k]);
                }
            },
        }
    }
}

/// The position where a key stands, with no earlier one, is its first.
pub proof fn lemma_first_index_is(keys: Seq<Seq<char>>, key: Seq<char>, at: int)
    requires
        0 <= at < keys.len(),
        keys[at] == key,
        forall|k: int| 0 <= k < at ==> keys[k] != key,
    ensures
        first_index(keys, key) == Some(at),
{
    lemma_first_index(keys, key);
}

/// A key that stands nowhere has no first position.
pub proof fn lemma_first_index_none(keys: Seq<Seq<char>>, key: Seq<char>)
    requires
        forall|k: int| 0 <= k < keys.len() ==> keys[k] != key,
    ensures
        first_index(keys, key) is None,
{
    lemma_first_index(keys, key);
}

/// The ids of the rules, in order.
pub open spec fn rule_ids(rules: Seq<AntiPatternView>) -> Seq<Seq<char>> {
    rules.map_values(|rule: AntiPatternView| rule.id)
}

/// The rule with the given id, if there is one.
pub open spec fn lookup(rules: Seq<AntiPatternView>, id: Seq<char>) -> Option<AntiPatternView> {
    match first_index(rule_ids(rules), id) {
        Some(at) => Some(rules[at]),
        None => None,
    }
}

/// The rules after `rule` is put among them: in the place of the rule with
/// the same id if there is one, at the end otherwise.
pub open spec fn upsert(rules: Seq<AntiPatternView>, rule: AntiPatternView) -> Seq<
    AntiPatternView,
> {
    match first_index(rule_ids(rules), rule.id) {
        Some(at) => rules.update(at, rule),
        None => rules.push(rule),
    }
}

/// The ids under which the cache holds an expression, in order.
pub open spec fn cache_ids(cache: Seq<(Seq<char>, Regex)>) -> Seq<Seq<char>> {
    cache.map_values(|entry: (Seq<char>, Regex)| entry.0)
}

/// The expression that the cache holds under an id, if it holds one.
pub open spec fn cached(cache: Seq<(Seq<char>, Regex)>, id: Seq<char>) -> Option<Regex> {
    match first_index(cache_ids(cache), id) {
        Some(at) => Some(cache[at].1),
        None => None,
    }
}

/// The cache after an expression is put under an id, in the place of the one
/// that was there, if any.
pub open spec fn cache_put(cache: Seq<(Seq<char>, Regex)>, id: Seq<char>, regex: Regex) -> Seq<
    (Seq<char>, Regex),
> {
    match first_index(cache_ids(cache), id) {
        Some(at) => cache.update(at, (id, regex)),
        None => cache.push((id, regex)),
    }
}

/// The cache after one rule is compiled into it. Only a rule that is detected
/// by a regular expression which compiles changes the cache.
pub open spec fn compile_rule(cache: Seq<(Seq<char>, Regex)>, rule: AntiPatternView) -> Seq<
    (Seq<char>, Regex),
> {
    match rule.detection_method {
        DetectionMethodView::Regex { pattern } => match compiled(pattern) {
            Some(regex) => cache_put(cache, rule.id, regex),
            None => cache,
        },
        _ => cache,
    }
}

/// The cache after the rules are compiled into it, one after the other.
pub open spec fn compile_rules(cache: Seq<(Seq<char>, Regex)>, rules: Seq<AntiPatternView>) -> Seq<
    (Seq<char>, Regex),
>
    decreases rules.len(),
{
    if rules.len() == 0 {
        cache
    } else {
        compile_rules(compile_rule(cache, rules[0]), rules.drop_first())
    }
}

/// The rules that are filed under a language: for each index entry of that
/// language, in order, the rule that now has the entry's id.
pub open spec fn filed_under(
    rules: Seq<AntiPatternView>,
    index: Seq<(Language, Seq<char>)>,
    language: Language,
) -> Seq<AntiPatternView>
    decreases index.len(),
{
    if index.len() == 0 {
        Seq::empty()
    } else {
        let before = filed_under(rules, index.drop_last(), language);
        let entry = index.last();
        if entry.0 == language {
            match lookup(rules, entry.1) {
                Some(rule) => before.push(rule),
                None => before,
            }
        } else {
            before
        }
    }
}

/// The test that picks the rules for files with a given extension: the rule
/// is enabled and its language has that extension.
pub open spec fn applies_to(ext: Seq<char>) -> spec_fn(AntiPatternView) -> bool {
    |rule: AntiPatternView| rule.enabled && has_extension(rule.language, ext)
}

/// The extension by which rules are chosen for a path: the path's extension,
/// or the empty text if it has none.
pub open spec fn rule_extension(path: Seq<char>) -> Seq<char> {
    match extension(path) {
        Some(ext) => ext,
        None => Seq::empty(),
    }
}

/// The test that a search makes: the query, in lower case, occurs in the
/// lower-case form of the rule's name, description or id.
pub open spec fn mentions(query: Seq<char>) -> spec_fn(AntiPatternView) -> bool {
    |rule: AntiPatternView|
        contains(lowercase(rule.name), lowercase(query)) || contains(
            lowercase(rule.description),
            lowercase(query),
        ) || contains(lowercase(rule.id), lowercase(query))
}

impl RegistryView {
    /// No two rules have the same id, and no two cache entries.
    pub open spec fn wf(self) -> bool {
        rule_ids(self.rules).no_duplicates() && cache_ids(self.compiled).no_duplicates()
    }

    /// The registry with nothing in it.
    pub open spec fn empty() -> RegistryView {
        RegistryView { rules: Seq::empty(), index: Seq::empty(), compiled: Seq::empty() }
    }

    /// The registry after a rule is added: the rule replaces the one with its
    /// id, or is new, and the index gets one more entry either way.
    pub open spec fn add(self, rule: AntiPatternView) -> RegistryView {
        RegistryView {
            rules: upsert(self.rules, rule),
            index: self.index.push((rule.language, rule.id)),
            compiled: self.compiled,
        }
    }

    /// The registry after every rule is compiled into the cache.
    pub open spec fn compile(self) -> RegistryView {
        RegistryView {
            rules: self.rules,
            index: self.index,
            compiled: compile_rules(self.compiled, self.rules),
        }
    }
}

impl View for PatternRegistry {
    type V = RegistryView;

    closed spec fn view(&self) -> RegistryView {
        RegistryView {
            rules: self.patterns.deep_view(),
            index: self.by_language.deep_view(),
            compiled: self.compiled_patterns.deep_view(),
        }
    }
}

/// Putting a rule among rules with distinct ids leaves the ids distinct.
pub proof fn lemma_upsert_distinct(rules: Seq<AntiPatternView>, rule: AntiPatternView)
    requires
        rule_ids(rules).no_duplicates(),
    ensures
        rule_ids(upsert(rules, rule)).no_duplicates(),
        rule_ids(upsert(rules, rule)) == (match first_index(rule_ids(rules), rule.id) {
            Some(at) => rule_ids(rules),
            None => rule_ids(rules).push(rule.id),
        }),
{
    lemma_first_index(rule_ids(rules), rule.id);
    match first_index(rule_ids(rules), rule.id) {
        Some(at) => {
            assert(rule_ids(rules.update(at, rule)) =~= rule_ids(rules));
        },
        None => {
            assert(rule_ids(rules.push(rule)) =~= rule_ids(rules).push(rule.id));
        },
    }
}

/// Putting an expression into a cache with distinct ids leaves them distinct.
pub proof fn lemma_cache_put_distinct(cache: Seq<(Seq<char>, Regex)>, id: Seq<char>, regex: Regex)
    requires
        cache_ids(cache).no_duplicates(),
    ensures
        cache_ids(cache_put(cache, id, regex)).no_duplicates(),
{
    lemma_first_index(cache_ids(cache), id);
    match first_index(cache_ids(cache), id) {
        Some(at) => {
            assert(cache_ids(cache.update(at, (id, regex))) =~= cache_ids(cache));
        },
        None => {
            assert(cache_ids(cache.push((id, regex))) =~= cache_ids(cache).push(id));
        },
    }
}

/// Compiling rules into a cache with distinct ids leaves them distinct.
pub proof fn lemma_compile_rules_distinct(
    cache: Seq<(Seq<char>, Regex)>,
    rules: Seq<AntiPatternView>,
)
    requires
        cache_ids(cache).no_duplicates(),
    ensures
        cache_ids(compile_rules(cache, rules)).no_duplicates(),
    decreases rules.len(),
{
    if rules.len() > 0 {
        match rules[0].detection_method {
            DetectionMethodView::Regex { pattern } => {
                if let Some(regex) = compiled(pattern) {
                    lemma_cache_put_distinct(cache, rules[0].id, regex);
                }
            },
            _ => {},
        }
        lemma_compile_rules_distinct(compile_rule(cache, rules[0]), rules.drop_first());
    }
}

/// After a rule is put among the rules, it is the one found under its id, and
/// what is found under any other id is as before.
pub proof fn lemma_lookup_upsert(rules: Seq<AntiPatternView>, rule: AntiPatternView, id: Seq<char>)
    ensures
        lookup(upsert(rules, rule), id) == (if id == rule.id {
            Some(rule)
        } else {
            lookup(rules, id)
        }),
{
    let ids = rule_ids(rules);
    let after = upsert(rules, rule);
    lemma_first_index(ids, rule.id);
    lemma_first_index(ids, id);
    lemma_first_index(rule_ids(after), id);
    match first_index(ids, rule.id) {
        Some(at) => {
            assert(rule_ids(after) =~= ids);
        },
        None => {
            assert(rule_ids(after) =~= ids.push(rule.id));
            if id == rule.id {
                lemma_first_index_is(rule_ids(after), id, ids.len() as int);
            } else {
                match first_index(ids, id) {
                    Some(k) => {
                        lemma_first_index_is(rule_ids(after), id, k);
                    },
                    None => {
                        lemma_first_index_none(rule_ids(after), id);
                    },
                }
            }
        },
    }
}

/// How many of the rules have the given id.
pub open spec fn count_with_id(rules: Seq<AntiPatternView>, id: Seq<char>) -> nat
    decreases rules.len(),
{
    if rules.len() == 0 {
        0
    } else {
        count_with_id(rules.drop_last(), id) + (if rules.last().id == id {
            1nat
        } else {
            0nat
        })
    }
}

/// Among rules with distinct ids, an id that is found stands exactly once.
pub proof fn lemma_count_with_id(rules: Seq<AntiPatternView>, id: Seq<char>)
    requires
        rule_ids(rules).no_duplicates(),
    ensures
        count_with_id(rules, id) == (if lookup(rules, id) is Some {
            1nat
        } else {
            0nat
        }),
    decreases rules.len(),
{
    if rules.len() > 0 {
        let front = rules.drop_last();
        assert(rule_ids(front) =~= rule_ids(rules).drop_last());
        assert(rule_ids(front).no_duplicates()) by {
            assert forall|i: int, j: int|
                0 <= i < rule_ids(front).len() && 0 <= j < rule_ids(front).len() && i
                    != j implies rule_ids(front)[i] != rule_ids(front)[j] by {
                assert(rule_ids(front)[i] == rule_ids(rules)[i]);
                assert(rule_ids(front)[j] == rule_ids(rules)[j]);
            }
        }
        lemma_count_with_id(front, id);
        lemma_first_index(rule_ids(front), id);
        if rules.last().id == id {
            match first_index(rule_ids(front), id) {
                Some(at) => {
                    assert(rule_ids(rules)[at] == rule_ids(rules)[rules.len() - 1]);
                },
                None => {},
            }
        }
    }
}

/// When two rules with the same id are added one after the other,
/// the registry holds exactly one rule under that id, which is the second,
/// while the index has an entry for each of the two.
pub proof fn lemma_add_twice(registry: RegistryView, first: AntiPatternView, second: AntiPatternView)
    requires
        registry.wf(),
        first.id == second.id,
    ensures
        ({
            let after = registry.add(first).add(second);
            &&& after.wf()
            &&& count_with_id(after.rules, second.id) == 1
            &&& lookup(after.rules, second.id) == Some(second)
            &&& after.rules.len() == registry.add(first).rules.len()
            &&& after.index == registry.index.push((first.language, first.id)).push(
                (second.language, second.id),
            )
        }),
{
    let once = registry.add(first);
    let after = once.add(second);
    lemma_upsert_distinct(registry.rules, first);
    lemma_upsert_distinct(once.rules, second);
    lemma_lookup_upsert(registry.rules, first, first.id);
    lemma_lookup_upsert(once.rules, second, second.id);
    lemma_count_with_id(after.rules, second.id);
    lemma_first_index(rule_ids(once.rules), second.id);
}


impl PatternRegistry {
    /// A registry with no rules.
    pub fn new() -> (out: Self)
        ensures
            out@ == RegistryView::empty(),
            out@.wf(),
    {
        let out = PatternRegistry {
            patterns: Vec::new(),
            by_language: Vec::new(),
            compiled_patterns: Vec::new(),
        };
        proof {
            assert(out.patterns.deep_view() =~= Seq::empty());
            assert(out.by_language.deep_view() =~= Seq::empty());
            assert(out.compiled_patterns.deep_view() =~= Seq::empty());
        }
        out
    }

    /// The number of rules.
    pub fn len(&self) -> (out: usize)
        ensures
            out == self@.rules.len(),
    {
        self.patterns.len()
    }

    /// Whether there is no rule.
    pub fn is_empty(&self) -> (out: bool)
        ensures
            out == (self@.rules.len() == 0),
    {
        self.patterns.len() == 0
    }

    /// The number of entries in the by-language index: one for each rule that
    /// was ever added.
    pub fn index_len(&self) -> (out: usize)
        ensures
            out == self@.index.len(),
    {
        self.by_language.len()
    }

    /// The number of compiled expressions in the cache.
    pub fn compiled_len(&self) -> (out: usize)
        ensures
            out == self@.compiled.len(),
    {
        self.compiled_patterns.len()
    }

    /// The place of the rule with the given id.
    fn position(&self, id: &String) -> (out: Option<usize>)
        ensures
            match out {
                Some(at) => first_index(rule_ids(self@.rules), id@) == Some(at as int) && at
                    < self.patterns.len(),
                None => first_index(rule_ids(self@.rules), id@) is None,
            },
    {
        let ghost ids = rule_ids(self@.rules);
        let mut at: usize = 0;
        while at < self.patterns.len()
            invariant
                at <= self.patterns.len(),
                ids == rule_ids(self@.rules),
                ids.len() == self.patterns.len(),
                forall|k: int| 0 <= k < at ==> ids[k] != id@,
            decreases self.patterns.len() - at,
        {
            if self.patterns[at].id == *id {
                proof {
                    lemma_first_index_is(ids, id@, at as int);
                }
                return Some(at);
            }
            at += 1;
        }
        proof {
            lemma_first_index_none(ids, id@);
        }
        None
    }

    /// The place of the cache entry with the given id.
    fn cache_position(&self, id: &String) -> (out: Option<usize>)
        ensures
            match out {
                Some(at) => first_index(cache_ids(self@.compiled), id@) == Some(at as int) && at
                    < self.compiled_patterns.len(),
                None => first_index(cache_ids(self@.compiled), id@) is None,
            },
    {
        let ghost ids = cache_ids(self@.compiled);
        let mut at: usize = 0;
        while at < self.compiled_patterns.len()
            invariant
                at <= self.compiled_patterns.len(),
                ids == cache_ids(self@.compiled),
                ids.len() == self.compiled_patterns.len(),
                forall|k: int| 0 <= k < at ==> ids[k] != id@,
            decreases self.compiled_patterns.len() - at,
        {
            if self.compiled_patterns[at].id == *id {
                proof {
                    lemma_first_index_is(ids, id@, at as int);
                }
                return Some(at);
            }
            at += 1;
        }
        proof {
            lemma_first_index_none(ids, id@);
        }
        None
    }

    /// Adds a rule. A rule with the same id is replaced; the by-language
    /// index gets a new entry in either case.
    pub fn add_pattern(&mut self, pattern: AntiPattern)
        ensures
            final(self)@ == old(self)@.add(pattern@),
            old(self)@.wf() ==> final(self)@.wf(),
    {
        proof {
            if self@.wf() {
                lemma_upsert_distinct(self@.rules, pattern@);
            }
        }
        let id = pattern.id.clone();
        let language = pattern.language;
        let ghost before = self@;
        match self.position(&id) {
            Some(at) => {
                self.patterns.set(at, pattern);
                assert(self.patterns.deep_view() =~= before.rules.update(at as int, pattern@));
            },
            None => {
                self.patterns.push(pattern);
                assert(self.patterns.deep_view() =~= before.rules.push(pattern@));
            },
        }
        let entry = IndexEntry { language, id };
        self.by_language.push(entry);
        assert(self.by_language.deep_view() =~= before.index.push(entry@));
    }

    /// The rule with the given id.
    pub fn get_pattern(&self, id: &str) -> (out: Option<&AntiPattern>)
        ensures
            out.deep_view() == lookup(self@.rules, id@),
    {
        let key = id.to_string();
        match self.position(&key) {
            Some(at) => Some(&self.patterns[at]),
            None => None,
        }
    }

    /// The compiled expression that the cache holds for the rule with the
    /// given id.
    pub fn get_compiled_pattern(&self, id: &str) -> (out: Option<&Regex>)
        ensures
            match out {
                Some(regex) => cached(self@.compiled, id@) == Some(*regex),
                None => cached(self@.compiled, id@) is None,
            },
    {
        let key = id.to_string();
        match self.cache_position(&key) {
            Some(at) => Some(&self.compiled_patterns[at].regex),
            None => None,
        }
    }
}


/// Filtering a sequence with one more element at its end.
pub proof fn lemma_filter_push<A>(s: Seq<A>, last: A, keep: spec_fn(A) -> bool)
    ensures
        s.push(last).filter(keep) == (if keep(last) {
            s.filter(keep).push(last)
        } else {
            s.filter(keep)
        }),
{
    reveal(Seq::filter);
    assert(s.push(last).drop_last() =~= s);
}

impl PatternRegistry {
    /// Puts a compiled expression into the cache.
    fn cache(&mut self, id: String, regex: Regex)
        ensures
            final(self)@.rules == old(self)@.rules,
            final(self)@.index == old(self)@.index,
            final(self)@.compiled == cache_put(old(self)@.compiled, id@, regex),
            final(self).patterns == old(self).patterns,
    {
        let ghost before = self@.compiled;
        let entry = CompiledPattern { id, regex };
        match self.cache_position(&entry.id) {
            Some(at) => {
                self.compiled_patterns.set(at, entry);
                assert(self.compiled_patterns.deep_view() =~= before.update(at as int, entry@));
            },
            None => {
                self.compiled_patterns.push(entry);
                assert(self.compiled_patterns.deep_view() =~= before.push(entry@));
            },
        }
    }

    /// Compiles the expression of every rule that is detected by a regular
    /// expression and keeps it in the cache under the rule's id. A rule whose
    /// expression does not compile gets no entry, and keeps the entry it had.
    pub fn compile_all_patterns(&mut self) -> (out: Result<(), core::convert::Infallible>)
        ensures
            out is Ok,
            final(self)@ == old(self)@.compile(),
            old(self)@.wf() ==> final(self)@.wf(),
    {
        proof {
            if self@.wf() {
                lemma_compile_rules_distinct(self@.compiled, self@.rules);
            }
            assert(self@.rules.skip(0) =~= self@.rules);
        }
        let mut i: usize = 0;
        while i < self.patterns.len()
            invariant
                i <= self.patterns.len(),
                self@.rules == old(self)@.rules,
                self@.index == old(self)@.index,
                self.patterns.len() == self@.rules.len(),
                compile_rules(old(self)@.compiled, old(self)@.rules) == compile_rules(
                    self@.compiled,
                    self@.rules.skip(i as int),
                ),
            decreases self.patterns.len() - i,
        {
            proof {
                let rest = self@.rules.skip(i as int);
                assert(rest[0] == self@.rules[i as int]);
                assert(rest.drop_first() =~= self@.rules.skip(i + 1));
            }
            let found = match &self.patterns[i].detection_method {
                DetectionMethod::Regex { pattern } => compile(pattern.as_str()),
                _ => None,
            };
            match found {
                Some(regex) => {
                    let id = self.patterns[i].id.clone();
                    self.cache(id, regex);
                },
                None => {},
            }
            i += 1;
        }
        Ok(())
    }

    /// The rules filed under a language, in the order in which they were
    /// added. A rule that was added twice is listed twice.
    pub fn get_patterns_for_language(&self, language: &Language) -> (out: Vec<&AntiPattern>)
        ensures
            out.deep_view() == filed_under(self@.rules, self@.index, *language),
    {
        let mut out: Vec<&AntiPattern> = Vec::new();
        let mut i: usize = 0;
        assert(out.deep_view() =~= Seq::empty());
        assert(self@.index.subrange(0, 0) =~= Seq::empty());
        while i < self.by_language.len()
            invariant
                i <= self.by_language.len(),
                self.by_language.len() == self@.index.len(),
                out.deep_view() == filed_under(
                    self@.rules,
                    self@.index.subrange(0, i as int),
                    *language,
                ),
            decreases self.by_language.len() - i,
        {
            proof {
                let upto = self@.index.subrange(0, i + 1);
                assert(upto.drop_last() =~= self@.index.subrange(0, i as int));
                assert(upto.last() == self@.index[i as int]);
            }
            let entry = &self.by_language[i];
            if entry.language == *language {
                match self.position(&entry.id) {
                    Some(at) => {
                        let ghost before = out.deep_view();
                        let rule = &self.patterns[at];
                        out.push(rule);
                        assert(out.deep_view() =~= before.push(rule@));
                    },
                    None => {},
                }
            }
            i += 1;
        }
        assert(self@.index.subrange(0, i as int) =~= self@.index);
        out
    }

    /// The enabled rules for the language of a file, chosen by the file's
    /// extension, in the order in which their ids were first added.
    pub fn get_patterns_for_file(&self, file_path: &str) -> (out: Vec<&AntiPattern>)
        ensures
            out.deep_view() == self@.rules.filter(applies_to(rule_extension(file_path@))),
    {
        let ext = match crate::text::path_extension(file_path) {
            Some(ext) => ext,
            None => String::new(),
        };
        let ghost keep = applies_to(rule_extension(file_path@));
        let mut out: Vec<&AntiPattern> = Vec::new();
        let mut i: usize = 0;
        proof {
            reveal(Seq::filter);
            assert(out.deep_view() =~= Seq::empty());
            assert(self@.rules.subrange(0, 0) =~= Seq::empty());
        }
        while i < self.patterns.len()
            invariant
                i <= self.patterns.len(),
                self.patterns.len() == self@.rules.len(),
                ext@ == rule_extension(file_path@),
                keep == applies_to(rule_extension(file_path@)),
                out.deep_view() == self@.rules.subrange(0, i as int).filter(keep),
            decreases self.patterns.len() - i,
        {
            let rule = &self.patterns[i];
            proof {
                lemma_filter_push(self@.rules.subrange(0, i as int), rule@, keep);
                assert(self@.rules.subrange(0, i as int).push(rule@) =~= self@.rules.subrange(
                    0,
                    i + 1,
                ));
            }
            if rule.enabled && rule.matches_file_extension(ext.as_str()) {
                let ghost before = out.deep_view();
                out.push(rule);
                assert(out.deep_view() =~= before.push(rule@));
            }
            i += 1;
        }
        assert(self@.rules.subrange(0, i as int) =~= self@.rules);
        out
    }

    /// The rules whose name, description or id contains the query, without
    /// regard to case, in the order in which their ids were first added.
    pub fn search_patterns(&self, query: &str) -> (out: Vec<&AntiPattern>)
        ensures
            out.deep_view() == self@.rules.filter(mentions(query@)),
    {
        let needle = crate::text::to_chars(crate::text::to_lowercase(query).as_str());
        let ghost keep = mentions(query@);
        let mut out: Vec<&AntiPattern> = Vec::new();
        let mut i: usize = 0;
        proof {
            reveal(Seq::filter);
            assert(out.deep_view() =~= Seq::empty());
            assert(self@.rules.subrange(0, 0) =~= Seq::empty());
        }
        while i < self.patterns.len()
            invariant
                i <= self.patterns.len(),
                self.patterns.len() == self@.rules.len(),
                needle@ == lowercase(query@),
                keep == mentions(query@),
                out.deep_view() == self@.rules.subrange(0, i as int).filter(keep),
            decreases self.patterns.len() - i,
        {
            let rule = &self.patterns[i];
            proof {
                lemma_filter_push(self@.rules.subrange(0, i as int), rule@, keep);
                assert(self@.rules.subrange(0, i as int).push(rule@) =~= self@.rules.subrange(
                    0,
                    i + 1,
                ));
            }
            if crate::text::contains_ignoring_case(rule.name.as_str(), &needle)
                || crate::text::contains_ignoring_case(rule.description.as_str(), &needle)
                || crate::text::contains_ignoring_case(rule.id.as_str(), &needle) {
                let ghost before = out.deep_view();
                out.push(rule);
                assert(out.deep_view() =~= before.push(rule@));
            }
            i += 1;
        }
        assert(self@.rules.subrange(0, i as int) =~= self@.rules);
        out
    }
}


/// The rules chosen for a file are exactly the rules
/// of the registry that are enabled and whose language has the file's
/// extension.
pub proof fn lemma_rules_for_file(rules: Seq<AntiPatternView>, path: Seq<char>)
    ensures
        forall|rule: AntiPatternView|
            #[trigger] rules.filter(applies_to(rule_extension(path))).contains(rule) <==> (
            rules.contains(rule) && rule.enabled && has_extension(
                rule.language,
                rule_extension(path),
            )),
        rules.filter(applies_to(rule_extension(path))).len() <= rules.len(),
{
    let keep = applies_to(rule_extension(path));
    let chosen = rules.filter(keep);
    rules.lemma_filter_len(keep);
    assert forall|rule: AntiPatternView| #[trigger] chosen.contains(rule) <==> (rules.contains(rule)
        && keep(rule)) by {
        if chosen.contains(rule) {
            let i = choose|i: int| 0 <= i < chosen.len() && chosen[i] == rule;
            rules.lemma_filter_pred(keep, i);
            rules.lemma_filter_contains_rev(keep, rule);
        }
        if rules.contains(rule) && keep(rule) {
            let i = choose|i: int| 0 <= i < rules.len() && rules[i] == rule;
            rules.lemma_filter_contains(keep, i);
        }
    }
}

/// Files with the extension `ex` or `exs` get Elixir rules only, and no
/// disabled rule.
pub proof fn lemma_elixir_files_get_elixir_rules(rules: Seq<AntiPatternView>, path: Seq<char>)
    requires
        extension(path) == Some("ex"@) || extension(path) == Some("exs"@),
    ensures
        forall|rule: AntiPatternView| #[trigger]
            rules.filter(applies_to(rule_extension(path))).contains(rule) ==> rule.language
                == Language::Elixir && rule.enabled,
{
    lemma_rules_for_file(rules, path);
    reveal_strlit("ex");
    reveal_strlit("exs");
    reveal_strlit("js");
    reveal_strlit("jsx");
    reveal_strlit("mjs");
    reveal_strlit("ts");
    reveal_strlit("tsx");
    reveal_strlit("py");
    reveal_strlit("rs");
    reveal_strlit("zig");
    reveal_strlit("sql");
    let ext = rule_extension(path);
    assert(ext[0] == 'e');
    assert forall|language: Language| has_extension(language, ext) implies language
        == Language::Elixir by {
        match language {
            Language::JavaScript => {
                assert("js"@[0] == 'j' && "jsx"@[0] == 'j' && "mjs"@[0] == 'm');
            },
            Language::TypeScript => {
                assert("ts"@[0] == 't' && "tsx"@[0] == 't');
            },
            Language::Python => {
                assert("py"@[0] == 'p');
            },
            Language::Rust => {
                assert("rs"@[0] == 'r');
            },
            Language::Zig => {
                assert("zig"@[0] == 'z');
            },
            Language::Sql => {
                assert("sql"@[0] == 's');
            },
            Language::Elixir => {},
        }
    }
}

} // verus!
