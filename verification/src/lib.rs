//! Git-aware anti-pattern scanning: a unified-diff parser, a registry of
//! language-specific rules, and an engine that matches the added lines of a
//! diff against those rules.
//!
//! The usual path through the crate: [`GitDiffParser::parse`] reads the text
//! of a diff, a [`PatternRegistry`] is filled with rules and handed to a
//! [`ReviewEngine`], and [`ReviewEngine::review_git_diff`] reports the
//! violations with a summary.

pub mod builtin;
pub mod config;
pub mod custom_rules;
pub mod diff;
pub mod fixes;
pub mod loader;
pub mod matcher;
pub mod pattern;
pub mod project;
pub mod query;
pub mod registry;
pub mod report;
pub mod review;
pub mod selection;
pub mod summary;
pub mod text;

pub use config::{Config, Settings};
pub use custom_rules::{CustomRule, CustomRulesConfig, CustomRulesManager, LanguageRules,
    ProjectEntry, ProjectRules};
pub use diff::{ChangeType, ChangedLine, DiffScope, FileDiff, GitDiff, GitDiffParser};
pub use fixes::{ClaudeCodeIntegration, FixRequest, FixResult, GitHubIntegration};
pub use loader::{DetectionRecord, RuleRecord};
pub use pattern::{AntiPattern, CodeExample, DetectionMethod, Fraction, Language, Severity};
pub use project::{ProjectDetector, ProjectInfo, ProjectType};
pub use registry::PatternRegistry;
pub use report::{FileViolations, ReviewResult};
pub use review::{Evaluation, ReviewEngine, ReviewSummary, ReviewViolation};
pub use selection::{LanguageFlags, SelectionError};
