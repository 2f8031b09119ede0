//! The settings of the tool.

use crate::text::clone_strings;
use core::convert::Infallible;
use vstd::prelude::*;

verus! {

/// What the user has chosen.
#[derive(Debug)]
pub struct Settings {
    /// Whether fixes are applied without asking.
    pub auto_fix: bool,
    /// The lower-case name of the severity from which violations are shown.
    pub severity_threshold: String,
    /// The lower-case names of the languages to look at; empty for all.
    pub focus_languages: Vec<String>,
}

/// A configuration: its format version and the settings.
#[derive(Debug)]
pub struct Config {
    pub version: String,
    pub settings: Settings,
}

/// The mathematical value of [`Settings`].
pub struct SettingsView {
    pub auto_fix: bool,
    pub severity_threshold: Seq<char>,
    pub focus_languages: Seq<Seq<char>>,
}

/// The mathematical value of a [`Config`].
pub struct ConfigView {
    pub version: Seq<char>,
    pub settings: SettingsView,
}

impl View for Settings {
    type V = SettingsView;

    open spec fn view(&self) -> SettingsView {
        SettingsView {
            auto_fix: self.auto_fix,
            severity_threshold: self.severity_threshold@,
            focus_languages: self.focus_languages.deep_view(),
        }
    }
}

impl View for Config {
    type V = ConfigView;

    open spec fn view(&self) -> ConfigView {
        ConfigView { version: self.version@, settings: self.settings@ }
    }
}

/// The configuration that holds where the user has chosen nothing: version
/// 1.0, no automatic fixes, violations from `major` on, all languages.
pub open spec fn default_config() -> ConfigView {
    ConfigView {
        version: "1.0"@,
        settings: SettingsView {
            auto_fix: false,
            severity_threshold: "major"@,
            focus_languages: Seq::empty(),
        },
    }
}

impl Clone for Settings {
    fn clone(&self) -> (out: Self)
        ensures
            out@ == self@,
    {
        Settings {
            auto_fix: self.auto_fix,
            severity_threshold: self.severity_threshold.clone(),
            focus_languages: clone_strings(&self.focus_languages),
        }
    }
}

impl Clone for Config {
    fn clone(&self) -> (out: Self)
        ensures
            out@ == self@,
    {
        Config { version: self.version.clone(), settings: self.settings.clone() }
    }
}

impl Default for Config {
    fn default() -> (out: Self)
        ensures
            out@ == default_config(),
    {
        let focus_languages: Vec<String> = Vec::new();
        assert(focus_languages.deep_view() =~= Seq::empty());
        Config {
            version: "1.0".to_string(),
            settings: Settings {
                auto_fix: false,
                severity_threshold: "major".to_string(),
                focus_languages,
            },
        }
    }
}

impl Config {
    /// The configuration for `path`. The configuration has no stored form,
    /// so this is the default configuration whatever the path.
    pub fn load(_path: &str) -> (out: Result<Config, Infallible>)
        ensures
            out matches Ok(config) && config@ == default_config(),
    {
        Ok(Config::default())
    }

    /// Keeps the configuration for `path`. The configuration has no stored
    /// form, so this succeeds and changes nothing.
    pub fn save(&self, _path: &str) -> (out: Result<(), Infallible>)
        ensures
            out is Ok,
    {
        Ok(())
    }
}

} // verus!
