//! Project-specific rules that users define themselves.
//!
//! A [`CustomRulesManager`] keeps, for each project, the rules that were
//! defined for it, by language. The rules of a project can be turned into
//! [`AntiPattern`]s and added to a registry.

use crate::loader::{language_named, parse_language, parse_severity, severity_named};
use crate::pattern::{language_name, AntiPattern, AntiPatternView, DetectionMethod,
    DetectionMethodView, Language, Severity};
use crate::registry::{first_index, lemma_filter_push, lemma_first_index_is,
    lemma_first_index_none, PatternRegistry, RegistryView};
use crate::text::{
    alphanumeric, is_alphanumeric, lowercase, rows, same_text, split_whitespace,
    string_from_range, to_chars, to_lowercase, tokens,
};
use core::convert::Infallible;
use vstd::prelude::*;
use vstd::string::StringExecFns;

verus! {

/// A rule that a user has defined: a regular expression with a description,
/// a severity and advice on the fix.
#[derive(Debug)]
pub struct CustomRule {
    pub id: String,
    pub description: String,
    pub pattern: String,
    /// `critical`, `major` or `warning`; anything else counts as `warning`.
    pub severity: String,
    pub fix: String,
    pub enabled: bool,
}

/// The custom rules of one language.
#[derive(Debug)]
pub struct LanguageRules {
    /// The lower-case name of the language.
    pub language: String,
    pub rules: Vec<CustomRule>,
}

/// The custom rules of one project.
#[derive(Debug)]
pub struct ProjectRules {
    /// The path of the project's root directory.
    pub path: String,
    /// Whether the root directory is the root of a git repository.
    pub git_root: bool,
    /// The rules by language, in the order in which the languages first got
    /// a rule.
    pub rules: Vec<LanguageRules>,
}

/// A project with its custom rules.
#[derive(Debug)]
pub struct ProjectEntry {
    pub name: String,
    pub rules: ProjectRules,
}

/// The custom rules of all projects, in the order in which the projects
/// first got a rule.
#[derive(Debug)]
pub struct CustomRulesConfig {
    pub projects: Vec<ProjectEntry>,
}

/// Keeps the custom rules of all projects. Where they are stored is for the
/// caller to say and to see to: the manager holds the path, and the rules as
/// they were last handed to it.
pub struct CustomRulesManager {
    config_path: String,
    config: CustomRulesConfig,
}

/// The mathematical value of a [`CustomRule`].
pub struct CustomRuleView {
    pub id: Seq<char>,
    pub description: Seq<char>,
    pub pattern: Seq<char>,
    pub severity: Seq<char>,
    pub fix: Seq<char>,
    pub enabled: bool,
}

/// The mathematical value of a [`ProjectRules`].
pub struct ProjectRulesView {
    pub path: Seq<char>,
    pub git_root: bool,
    pub rules: Seq<(Seq<char>, Seq<CustomRuleView>)>,
}

impl View for CustomRule {
    type V = CustomRuleView;

    open spec fn view(&self) -> CustomRuleView {
        CustomRuleView {
            id: self.id@,
            description: self.description@,
            pattern: self.pattern@,
            severity: self.severity@,
            fix: self.fix@,
            enabled: self.enabled,
        }
    }
}

impl DeepView for CustomRule {
    type V = CustomRuleView;

    open spec fn deep_view(&self) -> CustomRuleView {
        self@
    }
}

impl View for LanguageRules {
    type V = (Seq<char>, Seq<CustomRuleView>);

    open spec fn view(&self) -> (Seq<char>, Seq<CustomRuleView>) {
        (self.language@, self.rules.deep_view())
    }
}

impl DeepView for LanguageRules {
    type V = (Seq<char>, Seq<CustomRuleView>);

    open spec fn deep_view(&self) -> (Seq<char>, Seq<CustomRuleView>) {
        self@
    }
}

impl View for ProjectRules {
    type V = ProjectRulesView;

    open spec fn view(&self) -> ProjectRulesView {
        ProjectRulesView {
            path: self.path@,
            git_root: self.git_root,
            rules: self.rules.deep_view(),
        }
    }
}

impl View for ProjectEntry {
    type V = (Seq<char>, ProjectRulesView);

    open spec fn view(&self) -> (Seq<char>, ProjectRulesView) {
        (self.name@, self.rules@)
    }
}

impl DeepView for ProjectEntry {
    type V = (Seq<char>, ProjectRulesView);

    open spec fn deep_view(&self) -> (Seq<char>, ProjectRulesView) {
        self@
    }
}

impl View for CustomRulesConfig {
    type V = Seq<(Seq<char>, ProjectRulesView)>;

    open spec fn view(&self) -> Seq<(Seq<char>, ProjectRulesView)> {
        self.projects.deep_view()
    }
}

impl View for CustomRulesManager {
    type V = Seq<(Seq<char>, ProjectRulesView)>;

    closed spec fn view(&self) -> Seq<(Seq<char>, ProjectRulesView)> {
        self.config@
    }
}

/// The keys of a list of keyed entries, in order.
pub open spec fn keys<V>(entries: Seq<(Seq<char>, V)>) -> Seq<Seq<char>> {
    entries.map_values(|entry: (Seq<char>, V)| entry.0)
}

/// The first entry with the given key, if there is one.
pub open spec fn entry_of<V>(entries: Seq<(Seq<char>, V)>, key: Seq<char>) -> Option<V> {
    match first_index(keys(entries), key) {
        Some(at) => Some(entries[at].1),
        None => None,
    }
}

/// The rules by language after a rule is added under a language: at the end
/// of the rules of that language, which is new if it had none.
pub open spec fn language_add(
    groups: Seq<(Seq<char>, Seq<CustomRuleView>)>,
    language: Seq<char>,
    rule: CustomRuleView,
) -> Seq<(Seq<char>, Seq<CustomRuleView>)> {
    match first_index(keys(groups), language) {
        Some(at) => groups.update(at, (groups[at].0, groups[at].1.push(rule))),
        None => groups.push((language, seq![rule])),
    }
}

/// The projects after a rule is added to a project. A project that is not
/// known yet is entered with the given path, as the root of a repository.
pub open spec fn config_add(
    config: Seq<(Seq<char>, ProjectRulesView)>,
    name: Seq<char>,
    path: Seq<char>,
    language: Language,
    rule: CustomRuleView,
) -> Seq<(Seq<char>, ProjectRulesView)> {
    match first_index(keys(config), name) {
        Some(at) => config.update(
            at,
            (
                config[at].0,
                ProjectRulesView {
                    rules: language_add(config[at].1.rules, language_name(language), rule),
                    ..config[at].1
                },
            ),
        ),
        None => config.push(
            (
                name,
                ProjectRulesView {
                    path,
                    git_root: true,
                    rules: language_add(Seq::empty(), language_name(language), rule),
                },
            ),
        ),
    }
}

/// The rule of the registry that a custom rule makes for a language.
pub open spec fn custom_pattern(rule: CustomRuleView, language: Language) -> AntiPatternView {
    AntiPatternView {
        id: "custom_"@ + rule.id,
        name: rule.description,
        language,
        severity: match severity_named(rule.severity) {
            Some(severity) => severity,
            None => Severity::Warning,
        },
        description: rule.description,
        detection_method: DetectionMethodView::Regex { pattern: rule.pattern },
        fix_suggestion: rule.fix,
        source_url: Some("Custom project rule"@),
        claude_code_fixable: false,
        examples: Seq::empty(),
        tags: seq!["custom"@],
        enabled: true,
    }
}

/// The rules of the registry that the enabled ones among custom rules make.
pub open spec fn patterns_of_rules(rules: Seq<CustomRuleView>, language: Language) -> Seq<
    AntiPatternView,
>
    decreases rules.len(),
{
    if rules.len() == 0 {
        Seq::empty()
    } else {
        let before = patterns_of_rules(rules.drop_last(), language);
        if rules.last().enabled {
            before.push(custom_pattern(rules.last(), language))
        } else {
            before
        }
    }
}

/// The rules of the registry that the custom rules of all languages make.
/// Rules under a name that is no language make none.
pub open spec fn patterns_of_groups(groups: Seq<(Seq<char>, Seq<CustomRuleView>)>) -> Seq<
    AntiPatternView,
>
    decreases groups.len(),
{
    if groups.len() == 0 {
        Seq::empty()
    } else {
        let before = patterns_of_groups(groups.drop_last());
        match language_named(groups.last().0) {
            Some(language) => before + patterns_of_rules(groups.last().1, language),
            None => before,
        }
    }
}

/// The rules of the registry that the custom rules of a project make; none
/// for a project that is not known.
pub open spec fn project_patterns(config: Seq<(Seq<char>, ProjectRulesView)>, name: Seq<char>)
    -> Seq<AntiPatternView> {
    match entry_of(config, name) {
        Some(project) => patterns_of_groups(project.rules),
        None => Seq::empty(),
    }
}

/// The test that keeps the rules with another id than the given one.
pub open spec fn other_than(id: Seq<char>) -> spec_fn(CustomRuleView) -> bool {
    |rule: CustomRuleView| rule.id != id
}

/// Whether one of the rules has the given id.
pub open spec fn rules_mention(rules: Seq<CustomRuleView>, id: Seq<char>) -> bool {
    exists|i: int| 0 <= i < rules.len() && rules[i].id == id
}

/// Whether a rule of one of the languages has the given id.
pub open spec fn groups_mention(groups: Seq<(Seq<char>, Seq<CustomRuleView>)>, id: Seq<char>)
    -> bool {
    exists|g: int| 0 <= g < groups.len() && rules_mention(groups[g].1, id)
}

/// The rules by language without the rules with the given id.
pub open spec fn groups_without(groups: Seq<(Seq<char>, Seq<CustomRuleView>)>, id: Seq<char>)
    -> Seq<(Seq<char>, Seq<CustomRuleView>)> {
    groups.map_values(
        |group: (Seq<char>, Seq<CustomRuleView>)| (group.0, group.1.filter(other_than(id))),
    )
}

/// The projects after the rules with the given id are taken out of a
/// project.
pub open spec fn config_remove(
    config: Seq<(Seq<char>, ProjectRulesView)>,
    name: Seq<char>,
    id: Seq<char>,
) -> Seq<(Seq<char>, ProjectRulesView)> {
    match first_index(keys(config), name) {
        Some(at) => config.update(
            at,
            (
                config[at].0,
                ProjectRulesView { rules: groups_without(config[at].1.rules, id), ..config[at].1 },
            ),
        ),
        None => config,
    }
}

/// Whether a project has a rule with the given id.
pub open spec fn project_mentions(
    config: Seq<(Seq<char>, ProjectRulesView)>,
    name: Seq<char>,
    id: Seq<char>,
) -> bool {
    match entry_of(config, name) {
        Some(project) => groups_mention(project.rules, id),
        None => false,
    }
}

impl Clone for CustomRule {
    fn clone(&self) -> (out: Self)
        ensures
            out@ == self@,
    {
        CustomRule {
            id: self.id.clone(),
            description: self.description.clone(),
            pattern: self.pattern.clone(),
            severity: self.severity.clone(),
            fix: self.fix.clone(),
            enabled: self.enabled,
        }
    }
}

/// Copies a list of custom rules.
pub fn clone_rules(list: &Vec<CustomRule>) -> (out: Vec<CustomRule>)
    ensures
        out.deep_view() == list.deep_view(),
{
    let mut out: Vec<CustomRule> = Vec::new();
    let mut i: usize = 0;
    while i < list.len()
        invariant
            i <= list.len(),
            out.deep_view() == list.deep_view().subrange(0, i as int),
        decreases list.len() - i,
    {
        let ghost before = out.deep_view();
        let item = list[i].clone();
        out.push(item);
        assert(out.deep_view() =~= before.push(item@));
        i += 1;
    }
    assert(list.deep_view().subrange(0, i as int) =~= list.deep_view());
    out
}

impl Clone for LanguageRules {
    fn clone(&self) -> (out: Self)
        ensures
            out@ == self@,
    {
        LanguageRules { language: self.language.clone(), rules: clone_rules(&self.rules) }
    }
}

/// Copies the rules of the languages.
pub fn clone_groups(list: &Vec<LanguageRules>) -> (out: Vec<LanguageRules>)
    ensures
        out.deep_view() == list.deep_view(),
{
    let mut out: Vec<LanguageRules> = Vec::new();
    let mut i: usize = 0;
    while i < list.len()
        invariant
            i <= list.len(),
            out.deep_view() == list.deep_view().subrange(0, i as int),
        decreases list.len() - i,
    {
        let ghost before = out.deep_view();
        let item = list[i].clone();
        out.push(item);
        assert(out.deep_view() =~= before.push(item@));
        i += 1;
    }
    assert(list.deep_view().subrange(0, i as int) =~= list.deep_view());
    out
}

impl Clone for ProjectRules {
    fn clone(&self) -> (out: Self)
        ensures
            out@ == self@,
    {
        ProjectRules {
            path: self.path.clone(),
            git_root: self.git_root,
            rules: clone_groups(&self.rules),
        }
    }
}

impl Clone for ProjectEntry {
    fn clone(&self) -> (out: Self)
        ensures
            out@ == self@,
    {
        ProjectEntry { name: self.name.clone(), rules: self.rules.clone() }
    }
}

impl Clone for CustomRulesConfig {
    fn clone(&self) -> (out: Self)
        ensures
            out@ == self@,
    {
        let mut projects: Vec<ProjectEntry> = Vec::new();
        let mut i: usize = 0;
        while i < self.projects.len()
            invariant
                i <= self.projects.len(),
                projects.deep_view() == self.projects.deep_view().subrange(0, i as int),
            decreases self.projects.len() - i,
        {
            let ghost before = projects.deep_view();
            let item = self.projects[i].clone();
            projects.push(item);
            assert(projects.deep_view() =~= before.push(item@));
            i += 1;
        }
        assert(self.projects.deep_view().subrange(0, i as int) =~= self.projects.deep_view());
        CustomRulesConfig { projects }
    }
}


/// Finds the place of the rules of a language.
fn language_position(groups: &Vec<LanguageRules>, language: &str) -> (out: Option<usize>)
    ensures
        match out {
            Some(at) => first_index(keys(groups.deep_view()), language@) == Some(at as int) && at
                < groups.len(),
            None => first_index(keys(groups.deep_view()), language@) is None,
        },
{
    let ghost names = keys(groups.deep_view());
    let mut at: usize = 0;
    while at < groups.len()
        invariant
            at <= groups.len(),
            names == keys(groups.deep_view()),
            names.len() == groups.len(),
            forall|k: int| 0 <= k < at ==> names[k] != language@,
        decreases groups.len() - at,
    {
        if same_text(groups[at].language.as_str(), language) {
            proof {
                lemma_first_index_is(names, language@, at as int);
            }
            return Some(at);
        }
        at += 1;
    }
    proof {
        lemma_first_index_none(names, language@);
    }
    None
}

/// Finds the place of a project.
fn project_position(projects: &Vec<ProjectEntry>, name: &str) -> (out: Option<usize>)
    ensures
        match out {
            Some(at) => first_index(keys(projects.deep_view()), name@) == Some(at as int) && at
                < projects.len(),
            None => first_index(keys(projects.deep_view()), name@) is None,
        },
{
    let ghost names = keys(projects.deep_view());
    let mut at: usize = 0;
    while at < projects.len()
        invariant
            at <= projects.len(),
            names == keys(projects.deep_view()),
            names.len() == projects.len(),
            forall|k: int| 0 <= k < at ==> names[k] != name@,
        decreases projects.len() - at,
    {
        if same_text(projects[at].name.as_str(), name) {
            proof {
                lemma_first_index_is(names, name@, at as int);
            }
            return Some(at);
        }
        at += 1;
    }
    proof {
        lemma_first_index_none(names, name@);
    }
    None
}

/// The rules by language with one more rule under a language.
fn add_to_groups(groups: &Vec<LanguageRules>, language: &str, rule: CustomRule) -> (out: Vec<
    LanguageRules,
>)
    ensures
        out.deep_view() == language_add(groups.deep_view(), language@, rule@),
{
    let mut out = clone_groups(groups);
    let ghost before = out.deep_view();
    match language_position(groups, language) {
        Some(at) => {
            let mut rules = clone_rules(&groups[at].rules);
            let ghost held = rules.deep_view();
            rules.push(rule);
            assert(rules.deep_view() =~= held.push(rule@));
            let group = LanguageRules { language: groups[at].language.clone(), rules };
            out.set(at, group);
            assert(out.deep_view() =~= before.update(at as int, group@));
        },
        None => {
            let rules = vec![rule];
            assert(rules.deep_view() =~= seq![rule@]);
            let group = LanguageRules { language: language.to_string(), rules };
            out.push(group);
            assert(out.deep_view() =~= before.push(group@));
        },
    }
    out
}

/// The rules without those with the given id, and whether there was one.
fn remove_from_rules(rules: &Vec<CustomRule>, id: &str) -> (out: (Vec<CustomRule>, bool))
    ensures
        out.0.deep_view() == rules.deep_view().filter(other_than(id@)),
        out.1 == rules_mention(rules.deep_view(), id@),
{
    let ghost all = rules.deep_view();
    let ghost keep = other_than(id@);
    let mut kept: Vec<CustomRule> = Vec::new();
    let mut found = false;
    let mut i: usize = 0;
    proof {
        reveal(Seq::filter);
        assert(kept.deep_view() =~= Seq::empty());
        assert(all.subrange(0, 0) =~= Seq::empty());
    }
    while i < rules.len()
        invariant
            i <= rules.len(),
            all == rules.deep_view(),
            all.len() == rules.len(),
            keep == other_than(id@),
            kept.deep_view() == all.subrange(0, i as int).filter(keep),
            found == rules_mention(all.subrange(0, i as int), id@),
        decreases rules.len() - i,
    {
        let rule = &rules[i];
        proof {
            lemma_filter_push(all.subrange(0, i as int), rule@, keep);
            assert(all.subrange(0, i as int).push(rule@) =~= all.subrange(0, i + 1));
            let shorter = all.subrange(0, i as int);
            let longer = all.subrange(0, i + 1);
            if rules_mention(shorter, id@) {
                let k = choose|k: int| 0 <= k < shorter.len() && shorter[k].id == id@;
                assert(longer[k].id == id@);
            }
            if rules_mention(longer, id@) && rule@.id != id@ {
                let k = choose|k: int| 0 <= k < longer.len() && longer[k].id == id@;
                assert(shorter[k].id == id@);
            }
            if rule@.id == id@ {
                assert(longer[i as int].id == id@);
            }
        }
        if same_text(rule.id.as_str(), id) {
            found = true;
        } else {
            let ghost before = kept.deep_view();
            let copy = rule.clone();
            kept.push(copy);
            assert(kept.deep_view() =~= before.push(copy@));
        }
        i += 1;
    }
    proof {
        assert(all.subrange(0, i as int) =~= all);
    }
    (kept, found)
}

/// The rules by language without those with the given id, and whether there
/// was one.
fn remove_from_groups(groups: &Vec<LanguageRules>, id: &str) -> (out: (Vec<LanguageRules>, bool))
    ensures
        out.0.deep_view() == groups_without(groups.deep_view(), id@),
        out.1 == groups_mention(groups.deep_view(), id@),
{
    let ghost all = groups.deep_view();
    let mut kept: Vec<LanguageRules> = Vec::new();
    let mut found = false;
    let mut i: usize = 0;
    proof {
        assert(kept.deep_view() =~= groups_without(all, id@).subrange(0, 0));
    }
    while i < groups.len()
        invariant
            i <= groups.len(),
            all == groups.deep_view(),
            all.len() == groups.len(),
            kept.deep_view() == groups_without(all, id@).subrange(0, i as int),
            found == groups_mention(all.subrange(0, i as int), id@),
        decreases groups.len() - i,
    {
        let (rules, hit) = remove_from_rules(&groups[i].rules, id);
        proof {
            let shorter = all.subrange(0, i as int);
            let longer = all.subrange(0, i + 1);
            if groups_mention(shorter, id@) {
                let g = choose|g: int| 0 <= g < shorter.len() && rules_mention(shorter[g].1, id@);
                assert(rules_mention(longer[g].1, id@));
            }
            if groups_mention(longer, id@) && !hit {
                let g = choose|g: int| 0 <= g < longer.len() && rules_mention(longer[g].1, id@);
                assert(rules_mention(shorter[g].1, id@));
            }
            if hit {
                assert(rules_mention(longer[i as int].1, id@));
            }
        }
        if hit {
            found = true;
        }
        let ghost before = kept.deep_view();
        let group = LanguageRules { language: groups[i].language.clone(), rules };
        kept.push(group);
        proof {
            assert(kept.deep_view() =~= before.push(group@));
            assert(kept.deep_view() =~= groups_without(all, id@).subrange(0, i + 1));
        }
        i += 1;
    }
    proof {
        assert(all.subrange(0, i as int) =~= all);
        assert(groups_without(all, id@).subrange(0, i as int) =~= groups_without(all, id@));
    }
    (kept, found)
}

/// Builds the rule of the registry that a custom rule makes for a language.
pub fn pattern_from_custom_rule(rule: &CustomRule, language: Language) -> (out: AntiPattern)
    ensures
        out@ == custom_pattern(rule@, language),
{
    let mut id = "custom_".to_string();
    id.append(rule.id.as_str());
    let severity = match parse_severity(rule.severity.as_str()) {
        Some(severity) => severity,
        None => Severity::Warning,
    };
    let examples: Vec<crate::pattern::CodeExample> = Vec::new();
    let tags = vec!["custom".to_string()];
    proof {
        assert(examples.deep_view() =~= Seq::empty());
        assert(tags.deep_view() =~= seq!["custom"@]);
    }
    AntiPattern {
        id,
        name: rule.description.clone(),
        language,
        severity,
        description: rule.description.clone(),
        detection_method: DetectionMethod::Regex { pattern: rule.pattern.clone() },
        fix_suggestion: rule.fix.clone(),
        source_url: Some("Custom project rule".to_string()),
        claude_code_fixable: false,
        examples,
        tags,
        enabled: true,
    }
}

impl ProjectRules {
    /// The custom rules of a language, by its lower-case name.
    pub fn rules_for(&self, language: &str) -> (out: Option<&Vec<CustomRule>>)
        ensures
            out.deep_view() == entry_of(self@.rules, language@),
    {
        match language_position(&self.rules, language) {
            Some(at) => Some(&self.rules[at].rules),
            None => None,
        }
    }

    /// The rules of the registry that the custom rules of this project make:
    /// language by language, the enabled rules in order.
    pub fn patterns(&self) -> (out: Vec<AntiPattern>)
        ensures
            out.deep_view() == patterns_of_groups(self@.rules),
    {
        let ghost groups = self.rules.deep_view();
        let mut out: Vec<AntiPattern> = Vec::new();
        let mut g: usize = 0;
        proof {
            assert(out.deep_view() =~= Seq::empty());
            assert(groups.subrange(0, 0) =~= Seq::empty());
        }
        while g < self.rules.len()
            invariant
                g <= self.rules.len(),
                groups == self.rules.deep_view(),
                groups.len() == self.rules.len(),
                out.deep_view() == patterns_of_groups(groups.subrange(0, g as int)),
            decreases self.rules.len() - g,
        {
            let group = &self.rules[g];
            proof {
                let upto = groups.subrange(0, g + 1);
                assert(upto.drop_last() =~= groups.subrange(0, g as int));
                assert(upto.last() == group@);
            }
            match parse_language(group.language.as_str()) {
                Some(language) => {
                    let ghost done = out.deep_view();
                    let ghost rules = group.rules.deep_view();
                    let mut i: usize = 0;
                    proof {
                        assert(rules.subrange(0, 0) =~= Seq::empty());
                        assert(done + Seq::<AntiPatternView>::empty() =~= done);
                    }
                    while i < group.rules.len()
                        invariant
                            i <= group.rules.len(),
                            rules == group.rules.deep_view(),
                            rules.len() == group.rules.len(),
                            out.deep_view() == done + patterns_of_rules(
                                rules.subrange(0, i as int),
                                language,
                            ),
                        decreases group.rules.len() - i,
                    {
                        let rule = &group.rules[i];
                        proof {
                            let upto = rules.subrange(0, i + 1);
                            assert(upto.drop_last() =~= rules.subrange(0, i as int));
                            assert(upto.last() == rule@);
                        }
                        if rule.enabled {
                            let ghost before = out.deep_view();
                            let pattern = pattern_from_custom_rule(rule, language);
                            out.push(pattern);
                            assert(out.deep_view() =~= before.push(pattern@));
                        }
                        i += 1;
                    }
                    proof {
                        assert(rules.subrange(0, i as int) =~= rules);
                    }
                },
                None => {},
            }
            g += 1;
        }
        proof {
            assert(groups.subrange(0, g as int) =~= groups);
        }
        out
    }
}

impl CustomRulesConfig {
    /// A configuration without projects.
    pub fn new() -> (out: Self)
        ensures
            out@ == Seq::<(Seq<char>, ProjectRulesView)>::empty(),
    {
        let projects: Vec<ProjectEntry> = Vec::new();
        assert(projects.deep_view() =~= Seq::empty());
        CustomRulesConfig { projects }
    }

    /// The custom rules of a project.
    pub fn project(&self, name: &str) -> (out: Option<&ProjectRules>)
        ensures
            match out {
                Some(project) => entry_of(self@, name@) == Some(project@),
                None => entry_of(self@, name@) is None,
            },
    {
        match project_position(&self.projects, name) {
            Some(at) => Some(&self.projects[at].rules),
            None => None,
        }
    }
}

impl CustomRulesManager {
    /// A manager for the rules stored at `config_path`, holding no rules yet.
    pub fn with_config_path(config_path: String) -> (out: Self)
        ensures
            out@ == Seq::<(Seq<char>, ProjectRulesView)>::empty(),
            out.stored_at() == config_path@,
    {
        CustomRulesManager { config_path, config: CustomRulesConfig::new() }
    }

    /// The path at which the rules are stored.
    pub closed spec fn stored_at(&self) -> Seq<char> {
        self.config_path@
    }

    /// The path at which the rules are stored.
    pub fn config_path(&self) -> (out: &String)
        ensures
            out@ == self.stored_at(),
    {
        &self.config_path
    }

    /// The rules that the manager holds.
    pub fn config(&self) -> (out: &CustomRulesConfig)
        ensures
            out@ == self@,
    {
        &self.config
    }

    /// Hands the manager the rules that it is to hold from now on.
    pub fn set_config(&mut self, config: CustomRulesConfig)
        ensures
            final(self)@ == config@,
            final(self).stored_at() == old(self).stored_at(),
    {
        self.config = config;
    }

    /// Adds a rule to a project, under a language. A project that has no
    /// rules yet is entered with the given path.
    pub fn add_project_rule(
        &mut self,
        project_name: &str,
        project_path: &str,
        language: Language,
        rule: CustomRule,
    ) -> (out: Result<(), Infallible>)
        ensures
            out is Ok,
            final(self)@ == config_add(old(self)@, project_name@, project_path@, language, rule@),
            final(self).stored_at() == old(self).stored_at(),
    {
        let ghost before = self@;
        let key = language.name();
        match project_position(&self.config.projects, project_name) {
            Some(at) => {
                let held = &self.config.projects[at];
                let entry = ProjectEntry {
                    name: held.name.clone(),
                    rules: ProjectRules {
                        path: held.rules.path.clone(),
                        git_root: held.rules.git_root,
                        rules: add_to_groups(&held.rules.rules, key, rule),
                    },
                };
                self.config.projects.set(at, entry);
                assert(self.config.projects.deep_view() =~= before.update(at as int, entry@));
            },
            None => {
                let none: Vec<LanguageRules> = Vec::new();
                assert(none.deep_view() =~= Seq::empty());
                let entry = ProjectEntry {
                    name: project_name.to_string(),
                    rules: ProjectRules {
                        path: project_path.to_string(),
                        git_root: true,
                        rules: add_to_groups(&none, key, rule),
                    },
                };
                self.config.projects.push(entry);
                assert(self.config.projects.deep_view() =~= before.push(entry@));
            },
        }
        Ok(())
    }

    /// The rules of the registry that the custom rules of a project make.
    pub fn get_project_rules(&self, project_name: &str) -> (out: Result<
        Vec<AntiPattern>,
        Infallible,
    >)
        ensures
            out matches Ok(patterns) && patterns.deep_view() == project_patterns(
                self@,
                project_name@,
            ),
    {
        match self.config.project(project_name) {
            Some(project) => Ok(project.patterns()),
            None => {
                let none: Vec<AntiPattern> = Vec::new();
                assert(none.deep_view() =~= Seq::empty());
                Ok(none)
            },
        }
    }

    /// Takes the rules with the given id out of a project, and says whether
    /// there was one.
    pub fn remove_project_rule(&mut self, project_name: &str, rule_id: &str) -> (out: Result<
        bool,
        Infallible,
    >)
        ensures
            out == Ok::<bool, Infallible>(project_mentions(old(self)@, project_name@, rule_id@)),
            final(self)@ == config_remove(old(self)@, project_name@, rule_id@),
            final(self).stored_at() == old(self).stored_at(),
    {
        let ghost before = self@;
        match project_position(&self.config.projects, project_name) {
            Some(at) => {
                let held = &self.config.projects[at];
                let (rules, found) = remove_from_groups(&held.rules.rules, rule_id);
                let entry = ProjectEntry {
                    name: held.name.clone(),
                    rules: ProjectRules {
                        path: held.rules.path.clone(),
                        git_root: held.rules.git_root,
                        rules,
                    },
                };
                self.config.projects.set(at, entry);
                assert(self.config.projects.deep_view() =~= before.update(at as int, entry@));
                Ok(found)
            },
            None => Ok(false),
        }
    }
}

impl PatternRegistry {
    /// Adds the rules that the custom rules of a project make.
    pub fn load_custom_rules(&mut self, manager: &CustomRulesManager, project_name: &str) -> (out:
        Result<(), Infallible>)
        ensures
            out is Ok,
            final(self)@ == add_all(old(self)@, project_patterns(manager@, project_name@)),
    {
        let patterns = match manager.config().project(project_name) {
            Some(project) => project.patterns(),
            None => {
                let none: Vec<AntiPattern> = Vec::new();
                assert(none.deep_view() =~= Seq::empty());
                none
            },
        };
        let ghost all = patterns.deep_view();
        let mut i: usize = 0;
        assert(all.skip(0) =~= all);
        while i < patterns.len()
            invariant
                i <= patterns.len(),
                all == patterns.deep_view(),
                add_all(old(self)@, all) == add_all(self@, all.skip(i as int)),
            decreases patterns.len() - i,
        {
            proof {
                let rest = all.skip(i as int);
                assert(rest[0] == patterns[i as int]@);
                assert(rest.drop_first() =~= all.skip(i + 1));
            }
            self.add_pattern(patterns[i].clone());
            i += 1;
        }
        Ok(())
    }
}

/// The registry after the rules are added, one after the other.
pub open spec fn add_all(registry: RegistryView, rules: Seq<AntiPatternView>) -> RegistryView
    decreases rules.len(),
{
    if rules.len() == 0 {
        registry
    } else {
        add_all(registry.add(rules[0]), rules.drop_first())
    }
}


impl crate::review::ReviewEngine {
    /// An engine with the built-in rules, their expressions compiled, and
    /// after them the custom rules of a project. The expressions of the
    /// custom rules are compiled when they are tested.
    pub fn new_with_custom_rules(manager: &CustomRulesManager, project_name: &str) -> (out: Self)
        ensures
            out@ == add_all(
                RegistryView::empty().add(crate::builtin::dynamic_atom_creation()).add(
                    crate::builtin::long_parameter_list(),
                ).compile(),
                project_patterns(manager@, project_name@),
            ),
    {
        let mut registry = PatternRegistry::new();
        let _ = registry.load_built_in_patterns();
        let _ = registry.load_custom_rules(manager, project_name);
        crate::review::ReviewEngine::with_registry(registry)
    }
}


/// The characters of an id that are made from a description, one by one: a
/// space becomes an underscore, and what is then neither a letter, a number
/// nor an underscore is left out.
pub open spec fn id_characters(text: Seq<char>) -> Seq<char>
    decreases text.len(),
{
    if text.len() == 0 {
        Seq::empty()
    } else {
        let before = id_characters(text.drop_last());
        let c = if text.last() == ' ' {
            '_'
        } else {
            text.last()
        };
        if alphanumeric(c) || c == '_' {
            before.push(c)
        } else {
            before
        }
    }
}

/// The custom rule that is made from a description alone: its id is the
/// description in lower case, spaces as underscores; its pattern is the last
/// word of the description; it is an enabled warning. `None` for a
/// description without a word.
pub open spec fn rule_described(description: Seq<char>) -> Option<CustomRuleView> {
    if tokens(description).len() == 0 {
        None
    } else {
        Some(
            CustomRuleView {
                id: id_characters(lowercase(description)),
                description,
                pattern: tokens(description).last(),
                severity: "warning"@,
                fix: "Review and fix according to team guidelines"@,
                enabled: true,
            },
        )
    }
}

impl CustomRule {
    /// Makes a custom rule from a description alone.
    pub fn from_description(description: &str) -> (out: Option<CustomRule>)
        ensures
            out.deep_view() == rule_described(description@),
    {
        let words = split_whitespace(&to_chars(description));
        if words.len() == 0 {
            return None;
        }
        let last = &words[words.len() - 1];
        let pattern = string_from_range(last, 0, last.len());
        proof {
            assert(pattern@ =~= last@);
            assert(rows(words@).last() == last@);
        }
        let lowered = to_chars(to_lowercase(description).as_str());
        let mut id = String::new();
        let mut i: usize = 0;
        assert(lowered@.subrange(0, 0) =~= Seq::empty());
        while i < lowered.len()
            invariant
                i <= lowered.len(),
                id@ == id_characters(lowered@.subrange(0, i as int)),
            decreases lowered.len() - i,
        {
            proof {
                let upto = lowered@.subrange(0, i + 1);
                assert(upto.drop_last() =~= lowered@.subrange(0, i as int));
                assert(upto.last() == lowered@[i as int]);
            }
            let c = if lowered[i] == ' ' {
                '_'
            } else {
                lowered[i]
            };
            if is_alphanumeric(c) || c == '_' {
                id.push(c);
            }
            i += 1;
        }
        assert(lowered@.subrange(0, i as int) =~= lowered@);
        Some(
            CustomRule {
                id,
                description: description.to_string(),
                pattern,
                severity: "warning".to_string(),
                fix: "Review and fix according to team guidelines".to_string(),
                enabled: true,
            },
        )
    }
}

} // verus!
