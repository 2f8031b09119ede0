use patingin::pattern::{AntiPattern, CodeExample, DetectionMethod, Fraction, Language, Severity};
use patingin::registry::PatternRegistry;
use std::time::Instant;

// Helper function to create test patterns
fn create_test_pattern(id: &str, language: Language, severity: Severity) -> AntiPattern {
    AntiPattern {
        id: id.to_string(),
        name: format!("Test Pattern {}", id),
        language,
        severity,
        description: format!("Test description for {}", id),
        detection_method: DetectionMethod::Regex { pattern: r"test_pattern".to_string() },
        fix_suggestion: "Fix this test pattern".to_string(),
        source_url: None,
        claude_code_fixable: false,
        examples: vec![CodeExample {
            bad: "bad_example()".to_string(),
            good: "good_example()".to_string(),
            explanation: "Why the good example is better".to_string(),
        }],
        tags: vec!["test".to_string()],
        enabled: true,
    }
}

fn search_fixture() -> PatternRegistry {
    let mut registry = PatternRegistry::new();

    let pattern1 = AntiPattern {
        id: "atom_creation".to_string(),
        name: "Dynamic Atom Creation".to_string(),
        language: Language::Elixir,
        severity: Severity::Critical,
        description: "Memory exhaustion through atoms".to_string(),
        detection_method: DetectionMethod::Regex { pattern: "test".to_string() },
        fix_suggestion: "Use existing atoms".to_string(),
        source_url: None,
        claude_code_fixable: true,
        examples: vec![],
        tags: vec!["memory".to_string()],
        enabled: true,
    };

    let pattern2 = AntiPattern {
        id: "sql_injection".to_string(),
        name: "SQL Injection Risk".to_string(),
        language: Language::JavaScript,
        severity: Severity::Critical,
        description: "SQL injection vulnerability".to_string(),
        detection_method: DetectionMethod::Regex { pattern: "test".to_string() },
        fix_suggestion: "Use parameterized queries".to_string(),
        source_url: None,
        claude_code_fixable: true,
        examples: vec![],
        tags: vec!["security".to_string()],
        enabled: true,
    };

    registry.add_pattern(pattern1);
    registry.add_pattern(pattern2);
    registry
}

#[test]
fn registry_test_rule_registry_creation() {
    let registry = PatternRegistry::new();
    assert_eq!(registry.len(), 0);
    assert_eq!(registry.index_len(), 0);
}

#[test]
fn registry_tests_test_rule_registry_creation() {
    let registry = PatternRegistry::new();
    assert_eq!(registry.len(), 0);
    assert_eq!(registry.index_len(), 0);
}

#[test]
fn registry_test_add_pattern_o1_lookup() {
    let mut registry = PatternRegistry::new();
    let pattern = create_test_pattern("test_id", Language::Elixir, Severity::Critical);

    registry.add_pattern(pattern);

    let start = Instant::now();
    let found = registry.get_pattern("test_id");
    let duration = start.elapsed();

    assert!(found.is_some());
    assert_eq!(found.unwrap().id, "test_id");
    // Should be fast (allow up to 1ms for CI variability)
    assert!(duration.as_micros() < 1000);
}

#[test]
fn registry_tests_test_add_pattern_o1_lookup() {
    let mut registry = PatternRegistry::new();
    let pattern = create_test_pattern("test_id", Language::Elixir, Severity::Critical);

    registry.add_pattern(pattern);

    let start = Instant::now();
    let found = registry.get_pattern("test_id");
    let duration = start.elapsed();

    assert!(found.is_some());
    assert_eq!(found.unwrap().id, "test_id");
    assert!(duration.as_micros() < 100);
}

#[test]
fn registry_test_get_patterns_for_language_performance() {
    let mut registry = PatternRegistry::new();

    // Add 100 patterns for different languages
    for i in 0..100 {
        let lang = match i % 3 {
            0 => Language::Elixir,
            1 => Language::JavaScript,
            _ => Language::Python,
        };
        let pattern = create_test_pattern(&format!("test_{}", i), lang, Severity::Major);
        registry.add_pattern(pattern);
    }

    // Test language-based lookup performance
    let start = Instant::now();
    let elixir_patterns = registry.get_patterns_for_language(&Language::Elixir);
    let duration = start.elapsed();

    // Should find ~33 Elixir patterns
    assert!(elixir_patterns.len() >= 30 && elixir_patterns.len() <= 35);
    // Should be fast lookup
    assert!(duration.as_millis() < 10);
}

#[test]
fn registry_tests_test_get_patterns_for_language_performance() {
    let mut registry = PatternRegistry::new();

    for i in 0..100 {
        let lang = match i % 3 {
            0 => Language::Elixir,
            1 => Language::JavaScript,
            _ => Language::Python,
        };
        let pattern = create_test_pattern(&format!("test_{}", i), lang, Severity::Major);
        registry.add_pattern(pattern);
    }

    let start = Instant::now();
    let elixir_patterns = registry.get_patterns_for_language(&Language::Elixir);
    let duration = start.elapsed();

    assert!(elixir_patterns.len() >= 30 && elixir_patterns.len() <= 35);
    assert_eq!(elixir_patterns.len(), 34);
    assert!(duration.as_millis() < 10);
}

#[test]
fn registry_test_search_patterns_functionality() {
    let registry = search_fixture();

    // Test search by name
    let atom_results = registry.search_patterns("atom");
    assert_eq!(atom_results.len(), 1);
    assert_eq!(atom_results[0].id, "atom_creation");

    // Test search by description
    let memory_results = registry.search_patterns("memory");
    assert_eq!(memory_results.len(), 1);

    // Test search by ID
    let sql_results = registry.search_patterns("sql");
    assert_eq!(sql_results.len(), 1);
    assert_eq!(sql_results[0].id, "sql_injection");
}

#[test]
fn registry_tests_test_search_patterns_functionality() {
    let registry = search_fixture();

    let atom_results = registry.search_patterns("atom");
    assert_eq!(atom_results.len(), 1);
    assert_eq!(atom_results[0].id, "atom_creation");

    let memory_results = registry.search_patterns("memory");
    assert_eq!(memory_results.len(), 1);

    let sql_results = registry.search_patterns("sql");
    assert_eq!(sql_results.len(), 1);
    assert_eq!(sql_results[0].id, "sql_injection");
}

#[test]
fn search_ignores_case_on_both_sides() {
    let registry = search_fixture();
    // The query is lowered: "SQL INJ" finds "SQL Injection Risk".
    let results = registry.search_patterns("SQL INJ");
    assert_eq!(results.len(), 1);
    assert_eq!(results[0].id, "sql_injection");
    // The fields are lowered: "dynamic atom" finds "Dynamic Atom Creation".
    let results = registry.search_patterns("dynamic atom");
    assert_eq!(results.len(), 1);
    assert_eq!(results[0].id, "atom_creation");
    // The empty query occurs everywhere.
    assert_eq!(registry.search_patterns("").len(), 2);
    assert!(registry.search_patterns("no such words").is_empty());
}

#[test]
fn test_get_patterns_for_file_extension() {
    let mut registry = PatternRegistry::new();

    // Add patterns for different languages
    let elixir_pattern = create_test_pattern("elixir_test", Language::Elixir, Severity::Major);
    let js_pattern = create_test_pattern("js_test", Language::JavaScript, Severity::Major);

    registry.add_pattern(elixir_pattern);
    registry.add_pattern(js_pattern);

    // Test file extension matching
    let elixir_file_patterns = registry.get_patterns_for_file("lib/user.ex");
    let js_file_patterns = registry.get_patterns_for_file("src/app.js");

    assert!(!elixir_file_patterns.is_empty() || !js_file_patterns.is_empty());
    assert_eq!(elixir_file_patterns.len(), 1);
    assert_eq!(elixir_file_patterns[0].id, "elixir_test");
    assert_eq!(js_file_patterns.len(), 1);
    assert_eq!(js_file_patterns[0].id, "js_test");
}

#[test]
fn registry_test_load_built_in_patterns() {
    let mut registry = PatternRegistry::new();

    let result = registry.load_built_in_patterns();
    assert!(result.is_ok());

    // Should have loaded some Elixir patterns
    let elixir_patterns = registry.get_patterns_for_language(&Language::Elixir);
    assert!(!elixir_patterns.is_empty());

    // Should have specific patterns
    assert!(registry.get_pattern("dynamic_atom_creation").is_some());
    assert!(registry.get_pattern("long_parameter_list").is_some());
}

#[test]
fn registry_tests_test_load_built_in_patterns() {
    let mut registry = PatternRegistry::new();

    let result = registry.load_built_in_patterns();
    assert!(result.is_ok());

    let elixir_patterns = registry.get_patterns_for_language(&Language::Elixir);
    assert!(!elixir_patterns.is_empty());

    assert!(registry.get_pattern("dynamic_atom_creation").is_some());
    assert!(registry.get_pattern("long_parameter_list").is_some());
}

#[test]
fn registry_test_registry_scalability() {
    let mut registry = PatternRegistry::new();

    // Add 1000 patterns to test scalability
    for i in 0..1000 {
        let lang = match i % 7 {
            0 => Language::Elixir,
            1 => Language::JavaScript,
            2 => Language::TypeScript,
            3 => Language::Python,
            4 => Language::Rust,
            5 => Language::Zig,
            _ => Language::Sql,
        };
        let pattern = create_test_pattern(&format!("pattern_{}", i), lang, Severity::Warning);
        registry.add_pattern(pattern);
    }

    // Test performance with large dataset
    let start = Instant::now();

    // Multiple operations should still be fast
    let _pattern = registry.get_pattern("pattern_500");
    let _elixir_patterns = registry.get_patterns_for_language(&Language::Elixir);
    let _search_results = registry.search_patterns("pattern");

    let duration = start.elapsed();

    // All operations should complete quickly even with 1000 patterns
    assert!(duration.as_millis() < 50);

    // Verify we have all patterns
    assert_eq!(registry.len(), 1000);
}

#[test]
fn registry_tests_test_registry_scalability() {
    let mut registry = PatternRegistry::new();

    for i in 0..1000 {
        let lang = match i % 7 {
            0 => Language::Elixir,
            1 => Language::JavaScript,
            2 => Language::TypeScript,
            3 => Language::Python,
            4 => Language::Rust,
            5 => Language::Zig,
            _ => Language::Sql,
        };
        let pattern = create_test_pattern(&format!("pattern_{}", i), lang, Severity::Warning);
        registry.add_pattern(pattern);
    }

    let start = Instant::now();

    let _pattern = registry.get_pattern("pattern_500");
    let _elixir_patterns = registry.get_patterns_for_language(&Language::Elixir);
    let _search_results = registry.search_patterns("pattern");

    let duration = start.elapsed();

    assert!(duration.as_millis() < 50);
    assert_eq!(registry.len(), 1000);
}

#[test]
fn test_pattern_enabled_filtering() {
    let mut registry = PatternRegistry::new();

    // Add enabled and disabled patterns
    let mut enabled_pattern = create_test_pattern("enabled", Language::Elixir, Severity::Major);
    enabled_pattern.enabled = true;

    let mut disabled_pattern = create_test_pattern("disabled", Language::Elixir, Severity::Major);
    disabled_pattern.enabled = false;

    registry.add_pattern(enabled_pattern);
    registry.add_pattern(disabled_pattern);

    // get_patterns_for_file should only return enabled patterns
    let file_patterns = registry.get_patterns_for_file("test.ex");

    // Only enabled patterns should be included
    assert!(file_patterns.iter().all(|p| p.enabled));
    assert_eq!(file_patterns.len(), 1);
    assert_eq!(file_patterns[0].id, "enabled");
}

#[test]
fn adding_the_same_id_twice_keeps_one_rule_and_two_index_entries() {
    let mut registry = PatternRegistry::new();
    registry.add_pattern(create_test_pattern("other", Language::Rust, Severity::Major));
    registry.add_pattern(create_test_pattern("twice", Language::Elixir, Severity::Warning));
    let mut second = create_test_pattern("twice", Language::Elixir, Severity::Critical);
    second.name = "The second".to_string();
    registry.add_pattern(second);

    assert_eq!(registry.len(), 2);
    assert_eq!(registry.index_len(), 3);
    let found = registry.get_pattern("twice").expect("the rule is there");
    assert_eq!(found.name, "The second");
    assert_eq!(found.severity, Severity::Critical);

    // The id stands twice in the index, so the rule is listed twice.
    let listed = registry.get_patterns_for_language(&Language::Elixir);
    assert_eq!(listed.len(), 2);
    assert!(listed.iter().all(|p| p.name == "The second"));

    // Scans by extension walk the rules, not the index: one rule.
    assert_eq!(registry.get_patterns_for_file("a.ex").len(), 1);
}

#[test]
fn a_rule_that_changes_language_stays_filed_under_the_first() {
    let mut registry = PatternRegistry::new();
    registry.add_pattern(create_test_pattern("moved", Language::Elixir, Severity::Major));
    registry.add_pattern(create_test_pattern("moved", Language::Python, Severity::Major));
    let elixir = registry.get_patterns_for_language(&Language::Elixir);
    assert_eq!(elixir.len(), 1);
    assert_eq!(elixir[0].language, Language::Python);
    assert_eq!(registry.get_patterns_for_language(&Language::Python).len(), 1);
    assert!(registry.get_patterns_for_file("a.ex").is_empty());
    assert_eq!(registry.get_patterns_for_file("a.py").len(), 1);
}

#[test]
fn files_are_matched_to_rules_by_extension() {
    let mut registry = PatternRegistry::new();
    registry.load_built_in_patterns().expect("built-in rules load");
    registry.add_pattern(create_test_pattern("js_rule", Language::JavaScript, Severity::Major));
    registry.add_pattern(create_test_pattern("sql_rule", Language::Sql, Severity::Major));

    let ids = |path: &str| -> Vec<String> {
        registry.get_patterns_for_file(path).iter().map(|p| p.id.clone()).collect()
    };
    assert_eq!(ids("a.ex"), vec!["dynamic_atom_creation", "long_parameter_list"]);
    assert_eq!(ids("test/a_test.exs"), vec!["dynamic_atom_creation", "long_parameter_list"]);
    assert_eq!(ids("web/app.mjs"), vec!["js_rule"]);
    assert_eq!(ids("db/schema.sql"), vec!["sql_rule"]);
    // The extension is compared as written.
    assert!(ids("a.EX").is_empty());
    // No extension: a leading dot alone, no dot, a parent directory.
    assert!(ids(".ex").is_empty());
    assert!(ids("ex").is_empty());
    assert!(ids("lib.ex/..").is_empty());
    assert!(ids("").is_empty());
    // Only the last component counts, and empty components are passed over.
    assert!(ids("lib.ex/readme").is_empty());
    assert_eq!(ids("lib/user.ex/"), vec!["dynamic_atom_creation", "long_parameter_list"]);
    assert_eq!(ids("lib/user.ex/."), vec!["dynamic_atom_creation", "long_parameter_list"]);
    assert_eq!(ids("archive.tar.sql"), vec!["sql_rule"]);
    // cjs labels a file as JavaScript but selects no JavaScript rules.
    assert!(ids("a.cjs").is_empty());
}

#[test]
fn compiling_fills_the_cache_for_regex_rules_that_compile() {
    let mut registry = PatternRegistry::new();
    registry.add_elixir_patterns();
    let mut broken = create_test_pattern("broken", Language::Elixir, Severity::Major);
    broken.detection_method = DetectionMethod::Regex { pattern: "foo(bar".to_string() };
    registry.add_pattern(broken);
    let mut ratio = create_test_pattern("ratio", Language::Elixir, Severity::Major);
    ratio.detection_method = DetectionMethod::Ratio {
        threshold: Fraction { numerator: 3, denominator: 10 },
        pattern: "#".to_string(),
    };
    registry.add_pattern(ratio);
    assert_eq!(registry.compiled_len(), 0);
    assert!(registry.get_compiled_pattern("dynamic_atom_creation").is_none());

    let result = registry.compile_all_patterns();
    assert!(result.is_ok(), "All regex patterns should compile successfully");

    assert_eq!(registry.compiled_len(), 2);
    let compiled = registry.get_compiled_pattern("dynamic_atom_creation").expect("compiled");
    assert_eq!(compiled.as_str(), r"String\.to_atom\s*\(");
    assert!(compiled.is_match("String.to_atom (x)"));
    assert!(!compiled.is_match("String_to_atom(x)"));
    assert!(registry.get_compiled_pattern("long_parameter_list").is_some());
    assert!(registry.get_compiled_pattern("broken").is_none());
    assert!(registry.get_compiled_pattern("ratio").is_none());
    assert!(registry.get_pattern("broken").is_some());

    // Compiling again replaces the entries, it does not add any.
    registry.compile_all_patterns().expect("compiles");
    assert_eq!(registry.compiled_len(), 2);
}

#[test]
fn compiled_pattern_lookup_is_fast() {
    let mut registry = PatternRegistry::new();
    registry.load_built_in_patterns().expect("Should load rules");
    assert!(registry.compiled_len() > 0, "Should have compiled patterns");

    let start = Instant::now();
    let _compiled_pattern = registry.get_compiled_pattern("dynamic_atom_creation");
    let duration = start.elapsed();
    assert!(duration.as_micros() < 1000);
}

#[test]
fn matches_file_extension_follows_the_table() {
    let table: Vec<(Language, Vec<&str>)> = vec![
        (Language::Elixir, vec!["ex", "exs"]),
        (Language::JavaScript, vec!["js", "jsx", "mjs"]),
        (Language::TypeScript, vec!["ts", "tsx"]),
        (Language::Python, vec!["py"]),
        (Language::Rust, vec!["rs"]),
        (Language::Zig, vec!["zig"]),
        (Language::Sql, vec!["sql"]),
    ];
    let every: Vec<&str> = table.iter().flat_map(|(_, exts)| exts.iter().copied()).collect();
    for (language, own) in &table {
        let rule = create_test_pattern("rule", *language, Severity::Major);
        for ext in &every {
            assert_eq!(rule.matches_file_extension(ext), own.contains(ext), "{:?} {}", language, ext);
        }
        assert!(!rule.matches_file_extension(""));
        assert!(!rule.matches_file_extension("cjs"));
        assert!(!rule.matches_file_extension("EX"));
    }
}

#[test]
fn names_of_languages_and_severities() {
    assert_eq!(Language::Elixir.to_string(), "elixir");
    assert_eq!(Language::JavaScript.to_string(), "javascript");
    assert_eq!(Language::TypeScript.to_string(), "typescript");
    assert_eq!(Language::Python.to_string(), "python");
    assert_eq!(Language::Rust.to_string(), "rust");
    assert_eq!(Language::Zig.to_string(), "zig");
    assert_eq!(Language::Sql.to_string(), "sql");
    assert_eq!(Severity::Critical.to_string(), "critical");
    assert_eq!(Severity::Major.to_string(), "major");
    assert_eq!(Severity::Warning.to_string(), "warning");
    assert!(Severity::Critical < Severity::Major && Severity::Major < Severity::Warning);
    assert_eq!((Severity::Critical.rank(), Severity::Major.rank(), Severity::Warning.rank()), (0, 1, 2));
}
