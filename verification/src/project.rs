//! What is known about the project that is scanned.

use crate::pattern::{language_name, Language};
use crate::review::{language_for_extension, language_of_extension};
use crate::text::{lowercase, same_text, to_lowercase};
use vstd::prelude::*;
use vstd::string::StringExecFns;

verus! {

/// The kind of a project, by the package file that was found first.
#[derive(Debug, Clone, Copy, PartialEq, Eq, Structural)]
pub enum ProjectType {
    Git,
    Elixir,
    JavaScript,
    TypeScript,
    Python,
    Rust,
    Zig,
    Generic,
}

/// A project: its name, where it lies, and what it is written in.
#[derive(Debug)]
pub struct ProjectInfo {
    pub name: String,
    /// The path of the project's root directory.
    pub root_path: String,
    pub languages: Vec<Language>,
    pub project_type: ProjectType,
    /// The names of the package files found in the root directory.
    pub package_files: Vec<String>,
}

/// The rules by which a project is described and classified.
pub struct ProjectDetector;

/// The mathematical value of a [`ProjectInfo`].
pub struct ProjectInfoView {
    pub name: Seq<char>,
    pub root_path: Seq<char>,
    pub languages: Seq<Language>,
    pub project_type: ProjectType,
    pub package_files: Seq<Seq<char>>,
}

impl View for ProjectInfo {
    type V = ProjectInfoView;

    open spec fn view(&self) -> ProjectInfoView {
        ProjectInfoView {
            name: self.name@,
            root_path: self.root_path@,
            languages: self.languages@,
            project_type: self.project_type,
            package_files: self.package_files.deep_view(),
        }
    }
}

/// The name of a project type, as it is shown.
pub open spec fn project_type_name(project_type: ProjectType) -> Seq<char> {
    match project_type {
        ProjectType::Git => "Git"@,
        ProjectType::Elixir => "Elixir"@,
        ProjectType::JavaScript => "JavaScript"@,
        ProjectType::TypeScript => "TypeScript"@,
        ProjectType::Python => "Python"@,
        ProjectType::Rust => "Rust"@,
        ProjectType::Zig => "Zig"@,
        ProjectType::Generic => "Generic"@,
    }
}

/// The lower-case names of the languages, separated by a comma and a space.
pub open spec fn language_list(languages: Seq<Language>) -> Seq<char>
    decreases languages.len(),
{
    if languages.len() == 0 {
        Seq::empty()
    } else if languages.len() == 1 {
        language_name(languages[0])
    } else {
        language_list(languages.drop_last()) + ", "@ + language_name(languages.last())
    }
}

/// The description of a project: `name (Type project with languages)`, with
/// `unknown` in the place of the languages where none is known.
pub open spec fn description(info: ProjectInfoView) -> Seq<char> {
    info.name + " ("@ + project_type_name(info.project_type) + " project with "@ + (
    if info.languages.len() == 0 {
        "unknown"@
    } else {
        language_list(info.languages)
    }) + ")"@
}

/// One line of the table of package files: the file's name, the language and
/// the project type that it stands for.
pub struct PackageFile {
    pub name: Seq<char>,
    pub language: Language,
    pub project_type: ProjectType,
}

/// The package files that are looked for, in the order in which they count.
pub open spec fn package_table() -> Seq<PackageFile> {
    seq![
        PackageFile {
            name: "mix.exs"@,
            language: Language::Elixir,
            project_type: ProjectType::Elixir,
        },
        PackageFile {
            name: "package.json"@,
            language: Language::JavaScript,
            project_type: ProjectType::JavaScript,
        },
        PackageFile {
            name: "tsconfig.json"@,
            language: Language::TypeScript,
            project_type: ProjectType::TypeScript,
        },
        PackageFile {
            name: "pyproject.toml"@,
            language: Language::Python,
            project_type: ProjectType::Python,
        },
        PackageFile {
            name: "requirements.txt"@,
            language: Language::Python,
            project_type: ProjectType::Python,
        },
        PackageFile {
            name: "Cargo.toml"@,
            language: Language::Rust,
            project_type: ProjectType::Rust,
        },
        PackageFile {
            name: "build.zig"@,
            language: Language::Zig,
            project_type: ProjectType::Zig,
        },
    ]
}

/// What has been found out about a project.
pub struct Findings {
    pub languages: Seq<Language>,
    pub project_type: ProjectType,
    pub package_files: Seq<Seq<char>>,
}

/// The languages with one more, unless it is among them already.
pub open spec fn with_language(languages: Seq<Language>, language: Language) -> Seq<Language> {
    if languages.contains(language) {
        languages
    } else {
        languages.push(language)
    }
}

/// The findings after the first `n` lines of the package table are looked at,
/// given the names of the files that lie in the root directory. Each package
/// file that is there adds its language and its name; the first one decides
/// the project type.
pub open spec fn package_findings(present: Seq<Seq<char>>, n: int) -> Findings
    decreases n,
{
    if n <= 0 || n > package_table().len() {
        Findings {
            languages: Seq::empty(),
            project_type: ProjectType::Generic,
            package_files: Seq::empty(),
        }
    } else {
        let before = package_findings(present, n - 1);
        let line = package_table()[n - 1];
        if present.contains(line.name) {
            Findings {
                languages: with_language(before.languages, line.language),
                project_type: if before.project_type == ProjectType::Generic {
                    line.project_type
                } else {
                    before.project_type
                },
                package_files: before.package_files.push(line.name),
            }
        } else {
            before
        }
    }
}

/// The languages of files with the given extensions: for each extension, in
/// order, the language that its lower-case form stands for, each language
/// once.
pub open spec fn languages_of_extensions(extensions: Seq<Seq<char>>) -> Seq<Language>
    decreases extensions.len(),
{
    if extensions.len() == 0 {
        Seq::empty()
    } else {
        let before = languages_of_extensions(extensions.drop_last());
        match language_of_extension(lowercase(extensions.last())) {
            Some(language) => with_language(before, language),
            None => before,
        }
    }
}

/// What is found out about a project from the names of the files in its root
/// directory, from whether it is a git repository, and from the extensions of
/// its files. A project without package files is of type `Git` if it is a
/// repository and `Generic` if not, and its languages are those of its files.
pub open spec fn findings(present: Seq<Seq<char>>, is_repository: bool, extensions: Seq<Seq<char>>)
    -> Findings {
    let found = package_findings(present, package_table().len() as int);
    Findings {
        languages: if found.languages.len() == 0 {
            languages_of_extensions(extensions)
        } else {
            found.languages
        },
        project_type: if is_repository && found.project_type == ProjectType::Generic {
            ProjectType::Git
        } else {
            found.project_type
        },
        package_files: found.package_files,
    }
}

impl Language {
    /// The lower-case name of this language as a string slice.
    pub fn name(&self) -> (out: &'static str)
        ensures
            out@ == language_name(*self),
    {
        match self {
            Language::Elixir => "elixir",
            Language::JavaScript => "javascript",
            Language::TypeScript => "typescript",
            Language::Python => "python",
            Language::Rust => "rust",
            Language::Zig => "zig",
            Language::Sql => "sql",
        }
    }
}

impl ProjectType {
    /// The name of the project type, as it is shown.
    pub fn name(&self) -> (out: &'static str)
        ensures
            out@ == project_type_name(*self),
    {
        match self {
            ProjectType::Git => "Git",
            ProjectType::Elixir => "Elixir",
            ProjectType::JavaScript => "JavaScript",
            ProjectType::TypeScript => "TypeScript",
            ProjectType::Python => "Python",
            ProjectType::Rust => "Rust",
            ProjectType::Zig => "Zig",
            ProjectType::Generic => "Generic",
        }
    }
}

/// Tests whether a language is among the languages.
pub fn has_language(languages: &Vec<Language>, language: Language) -> (out: bool)
    ensures
        out == languages@.contains(language),
{
    let mut i: usize = 0;
    while i < languages.len()
        invariant
            i <= languages.len(),
            forall|k: int| 0 <= k < i ==> languages@[k] != language,
        decreases languages.len() - i,
    {
        if languages[i] == language {
            return true;
        }
        i += 1;
    }
    false
}

/// Tests whether a name is among the names.
pub fn has_name(names: &Vec<String>, name: &str) -> (out: bool)
    ensures
        out == names.deep_view().contains(name@),
{
    let mut i: usize = 0;
    while i < names.len()
        invariant
            i <= names.len(),
            forall|k: int| 0 <= k < i ==> names.deep_view()[k] != name@,
        decreases names.len() - i,
    {
        if same_text(names[i].as_str(), name) {
            assert(names.deep_view()[i as int] == name@);
            return true;
        }
        i += 1;
    }
    false
}

impl ProjectDetector {
    /// Describes a project in one line.
    pub fn describe_project(project_info: &ProjectInfo) -> (out: String)
        ensures
            out@ == description(project_info@),
    {
        let mut list = String::new();
        if project_info.languages.len() == 0 {
            list.append("unknown");
        } else {
            let mut i: usize = 0;
            assert(project_info.languages@.subrange(0, 0) =~= Seq::empty());
            while i < project_info.languages.len()
                invariant
                    i <= project_info.languages.len(),
                    list@ == language_list(project_info.languages@.subrange(0, i as int)),
                decreases project_info.languages.len() - i,
            {
                proof {
                    let upto = project_info.languages@.subrange(0, i + 1);
                    assert(upto.drop_last() =~= project_info.languages@.subrange(0, i as int));
                    assert(upto.last() == project_info.languages@[i as int]);
                }
                if i > 0 {
                    list.append(", ");
                } else {
                    assert(list@ + language_name(project_info.languages@[0]) =~= language_name(
                        project_info.languages@[0],
                    ));
                }
                list.append(project_info.languages[i].name());
                i += 1;
            }
            assert(project_info.languages@.subrange(0, i as int) =~= project_info.languages@);
        }
        let mut out = project_info.name.clone();
        out.append(" (");
        out.append(project_info.project_type.name());
        out.append(" project with ");
        out.append(list.as_str());
        out.append(")");
        out
    }

    /// Whether the project is written, in part, in the language.
    pub fn project_uses_language(project_info: &ProjectInfo, language: &Language) -> (out: bool)
        ensures
            out == project_info@.languages.contains(*language),
    {
        has_language(&project_info.languages, *language)
    }

    /// The languages of files with the given extensions.
    pub fn detect_languages_from_files(extensions: &Vec<String>) -> (out: Vec<Language>)
        ensures
            out@ == languages_of_extensions(extensions.deep_view()),
    {
        let mut out: Vec<Language> = Vec::new();
        let mut i: usize = 0;
        assert(extensions.deep_view().subrange(0, 0) =~= Seq::empty());
        while i < extensions.len()
            invariant
                i <= extensions.len(),
                out@ == languages_of_extensions(extensions.deep_view().subrange(0, i as int)),
            decreases extensions.len() - i,
        {
            proof {
                let upto = extensions.deep_view().subrange(0, i + 1);
                assert(upto.drop_last() =~= extensions.deep_view().subrange(0, i as int));
                assert(upto.last() == extensions[i as int]@);
            }
            let lowered = to_lowercase(extensions[i].as_str());
            match language_for_extension(lowered.as_str()) {
                Some(language) => {
                    if !has_language(&out, language) {
                        out.push(language);
                    }
                },
                None => {},
            }
            i += 1;
        }
        assert(extensions.deep_view().subrange(0, i as int) =~= extensions.deep_view());
        out
    }
}


/// The line of the package table at `index`.
fn package_line(index: usize) -> (out: (&'static str, Language, ProjectType))
    requires
        index < 7,
    ensures
        package_table().len() == 7,
        out.0@ == package_table()[index as int].name,
        out.1 == package_table()[index as int].language,
        out.2 == package_table()[index as int].project_type,
{
    if index == 0 {
        ("mix.exs", Language::Elixir, ProjectType::Elixir)
    } else if index == 1 {
        ("package.json", Language::JavaScript, ProjectType::JavaScript)
    } else if index == 2 {
        ("tsconfig.json", Language::TypeScript, ProjectType::TypeScript)
    } else if index == 3 {
        ("pyproject.toml", Language::Python, ProjectType::Python)
    } else if index == 4 {
        ("requirements.txt", Language::Python, ProjectType::Python)
    } else if index == 5 {
        ("Cargo.toml", Language::Rust, ProjectType::Rust)
    } else {
        ("build.zig", Language::Zig, ProjectType::Zig)
    }
}

impl ProjectDetector {
    /// Finds the languages, the type and the package files of a project from
    /// the names of the files in its root directory, from whether it is a git
    /// repository, and from the extensions of its files.
    pub fn detect_languages_and_type(
        present: &Vec<String>,
        is_repository: bool,
        extensions: &Vec<String>,
    ) -> (out: (Vec<Language>, ProjectType, Vec<String>))
        ensures
            ({
                let found = findings(present.deep_view(), is_repository, extensions.deep_view());
                &&& out.0@ == found.languages
                &&& out.1 == found.project_type
                &&& out.2.deep_view() == found.package_files
            }),
    {
        let mut languages: Vec<Language> = Vec::new();
        let mut package_files: Vec<String> = Vec::new();
        let mut project_type = ProjectType::Generic;
        let mut n: usize = 0;
        proof {
            assert(package_files.deep_view() =~= Seq::empty());
        }
        while n < 7
            invariant
                n <= 7,
                package_table().len() == 7,
                languages@ == package_findings(present.deep_view(), n as int).languages,
                project_type == package_findings(present.deep_view(), n as int).project_type,
                package_files.deep_view() == package_findings(
                    present.deep_view(),
                    n as int,
                ).package_files,
            decreases 7 - n,
        {
            let line = package_line(n);
            if has_name(present, line.0) {
                if !has_language(&languages, line.1) {
                    languages.push(line.1);
                }
                let ghost before = package_files.deep_view();
                let name = line.0.to_string();
                package_files.push(name);
                assert(package_files.deep_view() =~= before.push(name@));
                if project_type == ProjectType::Generic {
                    project_type = line.2;
                }
            }
            n += 1;
        }
        if is_repository && project_type == ProjectType::Generic {
            project_type = ProjectType::Git;
        }
        if languages.len() == 0 {
            languages = Self::detect_languages_from_files(extensions);
        }
        (languages, project_type, package_files)
    }
}


/// The name of a project: the name that its `package.json` gives, else the
/// one that its `mix.exs` gives, else the one that its `Cargo.toml` gives,
/// else the name of its directory, else `unknown`.
pub open spec fn project_name(
    package_json: Option<Seq<char>>,
    mix_exs: Option<Seq<char>>,
    cargo_toml: Option<Seq<char>>,
    directory: Option<Seq<char>>,
) -> Seq<char> {
    match (package_json, mix_exs, cargo_toml, directory) {
        (Some(name), _, _, _) => name,
        (None, Some(name), _, _) => name,
        (None, None, Some(name), _) => name,
        (None, None, None, Some(name)) => name,
        (None, None, None, None) => "unknown"@,
    }
}

/// How ready the environment is, by the checks that were made.
#[derive(Debug, Clone, Copy, PartialEq, Eq, Structural)]
pub enum Readiness {
    /// Every check passed and nothing was warned of.
    Ready,
    /// Every check passed, with warnings.
    ReadyWithWarnings,
    /// A check failed.
    NeedsAttention,
}

/// How ready the environment is when `passed` of `total` checks passed with
/// the given number of warnings.
pub open spec fn readiness(passed: usize, total: usize, warnings: usize) -> Readiness {
    if passed == total && warnings == 0 {
        Readiness::Ready
    } else if passed == total {
        Readiness::ReadyWithWarnings
    } else {
        Readiness::NeedsAttention
    }
}

impl ProjectDetector {
    /// Chooses the name of a project from the names that its package files
    /// and its directory give.
    pub fn determine_project_name(
        package_json: Option<String>,
        mix_exs: Option<String>,
        cargo_toml: Option<String>,
        directory: Option<String>,
    ) -> (out: String)
        ensures
            out@ == project_name(
                package_json.deep_view(),
                mix_exs.deep_view(),
                cargo_toml.deep_view(),
                directory.deep_view(),
            ),
    {
        match package_json {
            Some(name) => name,
            None => match mix_exs {
                Some(name) => name,
                None => match cargo_toml {
                    Some(name) => name,
                    None => match directory {
                        Some(name) => name,
                        None => "unknown".to_string(),
                    },
                },
            },
        }
    }

    /// Says how ready the environment is.
    pub fn assess(passed: usize, total: usize, warnings: usize) -> (out: Readiness)
        ensures
            out == readiness(passed, total, warnings),
    {
        if passed == total && warnings == 0 {
            Readiness::Ready
        } else if passed == total {
            Readiness::ReadyWithWarnings
        } else {
            Readiness::NeedsAttention
        }
    }
}

} // verus!
