use patingin::pattern::Language;
use patingin::project::{ProjectDetector, ProjectInfo, ProjectType, Readiness};

#[test]
fn test_project_uses_language() {
    let project_info = ProjectInfo {
        name: "test".to_string(),
        root_path: "/test".to_string(),
        languages: vec![Language::Elixir, Language::JavaScript],
        project_type: ProjectType::Elixir,
        package_files: vec!["mix.exs".to_string()],
    };

    assert!(ProjectDetector::project_uses_language(&project_info, &Language::Elixir));
    assert!(ProjectDetector::project_uses_language(&project_info, &Language::JavaScript));
    assert!(!ProjectDetector::project_uses_language(&project_info, &Language::Python));
}

#[test]
fn test_describe_project() {
    let project_info = ProjectInfo {
        name: "my-app".to_string(),
        root_path: "/path/to/my-app".to_string(),
        languages: vec![Language::Elixir],
        project_type: ProjectType::Elixir,
        package_files: vec!["mix.exs".to_string()],
    };

    let description = ProjectDetector::describe_project(&project_info);
    assert!(description.contains("my-app"));
    assert!(description.contains("Elixir"));
    assert!(description.contains("elixir"));
}

#[test]
fn describe_project_gives_the_exact_line() {
    let project_info = ProjectInfo {
        name: "shop".to_string(),
        root_path: "/srv/shop".to_string(),
        languages: vec![Language::JavaScript, Language::TypeScript, Language::Sql],
        project_type: ProjectType::JavaScript,
        package_files: vec!["package.json".to_string(), "tsconfig.json".to_string()],
    };
    assert_eq!(
        ProjectDetector::describe_project(&project_info),
        "shop (JavaScript project with javascript, typescript, sql)"
    );
}

#[test]
fn describe_project_without_languages_says_unknown() {
    let project_info = ProjectInfo {
        name: "notes".to_string(),
        root_path: "/notes".to_string(),
        languages: vec![],
        project_type: ProjectType::Generic,
        package_files: vec![],
    };
    assert_eq!(ProjectDetector::describe_project(&project_info), "notes (Generic project with unknown)");
}

#[test]
fn package_files_decide_languages_and_type() {
    let present = vec![
        "README.md".to_string(),
        "requirements.txt".to_string(),
        "pyproject.toml".to_string(),
        "Cargo.toml".to_string(),
    ];
    let (languages, project_type, package_files) =
        ProjectDetector::detect_languages_and_type(&present, true, &vec!["ex".to_string()]);
    assert_eq!(languages, vec![Language::Python, Language::Rust]);
    assert_eq!(project_type, ProjectType::Python);
    assert_eq!(package_files, vec!["pyproject.toml", "requirements.txt", "Cargo.toml"]);
}

#[test]
fn a_repository_without_package_files_is_a_git_project() {
    let extensions = vec!["EX".to_string(), "md".to_string(), "js".to_string(), "exs".to_string()];
    let (languages, project_type, package_files) =
        ProjectDetector::detect_languages_and_type(&vec![], true, &extensions);
    assert_eq!(languages, vec![Language::Elixir, Language::JavaScript]);
    assert_eq!(project_type, ProjectType::Git);
    assert!(package_files.is_empty());

    let (_, project_type, _) = ProjectDetector::detect_languages_and_type(&vec![], false, &extensions);
    assert_eq!(project_type, ProjectType::Generic);
}

#[test]
fn the_name_comes_from_the_first_source_that_gives_one() {
    let some = |s: &str| Some(s.to_string());
    let name = ProjectDetector::determine_project_name;
    assert_eq!(name(some("from-json"), some("from_mix"), some("from-cargo"), some("dir")), "from-json");
    assert_eq!(name(None, some("from_mix"), some("from-cargo"), some("dir")), "from_mix");
    assert_eq!(name(None, None, some("from-cargo"), some("dir")), "from-cargo");
    assert_eq!(name(None, None, None, some("dir")), "dir");
    assert_eq!(name(None, None, None, None), "unknown");
    assert_eq!(name(some(""), some("from_mix"), None, None), "");
}

#[test]
fn readiness_goes_by_failed_checks_first() {
    assert_eq!(ProjectDetector::assess(5, 5, 0), Readiness::Ready);
    assert_eq!(ProjectDetector::assess(5, 5, 2), Readiness::ReadyWithWarnings);
    assert_eq!(ProjectDetector::assess(4, 5, 0), Readiness::NeedsAttention);
    assert_eq!(ProjectDetector::assess(3, 5, 1), Readiness::NeedsAttention);
    assert_eq!(ProjectDetector::assess(0, 0, 0), Readiness::Ready);
}
