use pyra_core::project::{
    default_project_config, fallback_pyproject, new_project_main_py, new_project_readme,
    render_pyproject_toml, BuildSystem, ProjectMetadata, PyProjectToml,
};
use pyra_core::scaffold::{
    create_gitignore, create_pyproject_toml, find_template, get_builtin_templates,
    replaceable_scaffold_file,
};
use pyra_core::tools::{
    build_check_result, chars_to_string, count_matches, parse_dependency_tree,
    parse_pyproject_deps, parse_python_versions, parse_uv_tree, sort_listing, FileItem,
    FileManager, PythonManager, RuffDiagnostic,
};

#[test]
fn builtin_templates_cover_the_four_layouts() {
    let templates = get_builtin_templates();
    let ids: Vec<&str> = templates.iter().map(|t| t.id.as_str()).collect();
    assert_eq!(ids, vec!["basic", "cli-app", "web-api", "data-analysis"]);
    assert_eq!(templates[0].files.len(), 2);
    assert_eq!(templates[0].files[0].path, "main.py");
    assert!(templates[0].files[0].content.contains("Hello, World!"));
    assert!(templates[2].dependencies.iter().any(|d| d.starts_with("fastapi")));
    let data = &templates[3];
    assert!(data.files[0].is_directory);
    assert_eq!(data.files[0].path, "data/");
    assert_eq!(data.dependencies.len(), 5);
}

#[test]
fn find_template_locates_by_id() {
    let templates = get_builtin_templates();
    assert_eq!(find_template(&templates, "web-api"), Some(2));
    assert_eq!(find_template(&templates, "nope"), None);
}

#[test]
fn created_pyproject_lists_dependencies() {
    let deps = vec!["fastapi>=0.104.0".to_string(), "pydantic>=2.4.0".to_string()];
    let text = create_pyproject_toml("demo", &deps);
    assert!(text.starts_with("[project]\nname = \"demo\"\n"));
    assert!(text.contains("dependencies = [\n    \"fastapi>=0.104.0\",\n    \"pydantic>=2.4.0\"\n]"));
    assert!(text.contains("[tool.ruff]"));
    let bare = create_pyproject_toml("demo", &Vec::new());
    assert!(!bare.contains("dependencies = ["));
}

#[test]
fn gitignore_covers_the_usual_suspects() {
    let text = create_gitignore();
    assert!(text.contains("__pycache__/"));
    assert!(text.contains(".venv"));
    assert!(text.contains("*.log"));
}

#[test]
fn rendered_manifest_is_exact() {
    let config = PyProjectToml {
        project: ProjectMetadata {
            name: "demo".to_string(),
            version: "0.2.0".to_string(),
            description: Some("a thing".to_string()),
            authors: vec!["Ada <ada@example.com>".to_string()],
            requires_python: Some(">=3.9".to_string()),
            license: Some("MIT".to_string()),
            readme: Some("README.md".to_string()),
        },
        dependencies: vec!["requests>=2".to_string()],
        dev_dependencies: vec!["ruff".to_string()],
        build_system: Some(BuildSystem {
            requires: vec!["setuptools".to_string()],
            build_backend: "setuptools.build_meta".to_string(),
        }),
    };
    let expected = "[project]\nname = \"demo\"\nversion = \"0.2.0\"\ndescription = \"a thing\"\n\
        authors = [\n    \"Ada <ada@example.com>\",\n]\nrequires-python = \">=3.9\"\n\
        license = \"MIT\"\nreadme = \"README.md\"\ndependencies = [\n    \"requests>=2\",\n]\n\
        \n[build-system]\nrequires = [\n    \"setuptools\",\n]\nbuild-backend = \"setuptools.build_meta\"\n\
        \n[tool.uv]\ndev-dependencies = [\n    \"ruff\",\n]\n";
    assert_eq!(render_pyproject_toml(&config), expected);
}

#[test]
fn rendered_manifest_omits_absent_blocks() {
    let config = PyProjectToml {
        project: ProjectMetadata {
            name: "tiny".to_string(),
            version: "0.1.0".to_string(),
            description: None,
            authors: Vec::new(),
            requires_python: None,
            license: None,
            readme: None,
        },
        dependencies: Vec::new(),
        dev_dependencies: Vec::new(),
        build_system: None,
    };
    assert_eq!(
        render_pyproject_toml(&config),
        "[project]\nname = \"tiny\"\nversion = \"0.1.0\"\n"
    );
}

#[test]
fn default_config_starts_clean() {
    let config = default_project_config(
        "demo".to_string(),
        "/work/demo".to_string(),
        "2024-01-01T00:00:00Z".to_string(),
    );
    assert_eq!(config.name, "demo");
    assert_eq!(config.path, "/work/demo");
    assert!(config.python_version.is_none());
    assert!(config.dependencies.is_empty());
    assert_eq!(config.created_at, config.last_opened);
}

#[test]
fn new_project_files_have_their_fixed_shapes() {
    assert!(new_project_main_py().contains("def main():"));
    let readme = new_project_readme("demo");
    assert!(readme.starts_with("# demo\n"));
    let manifest = fallback_pyproject("demo", &None);
    assert!(manifest.contains("requires-python = \">=3.8\""));
    let pinned = fallback_pyproject("demo", &Some(">=3.11".to_string()));
    assert!(pinned.contains("requires-python = \">=3.11\""));
}

#[test]
fn tree_listing_yields_packages_in_order() {
    let output = "demo v0.1.0\n\u{251c}\u{2500}\u{2500} requests v2.31.0\n\u{2502}   \u{2514}\u{2500}\u{2500} urllib3 v2.0.4\n\u{2514}\u{2500}\u{2500} rich v13.0.0\n";
    let packages = parse_uv_tree(output);
    let got: Vec<(&str, &str)> =
        packages.iter().map(|p| (p.name.as_str(), p.version.as_str())).collect();
    assert_eq!(
        got,
        vec![("demo", "0.1.0"), ("requests", "2.31.0"), ("urllib3", "2.0.4"), ("rich", "13.0.0")]
    );
}

#[test]
fn lines_without_version_markers_are_skipped() {
    let output = "Resolved 3 packages\ndemo v1.0.0\nDone\n";
    let packages = parse_uv_tree(output);
    assert_eq!(packages.len(), 1);
    assert_eq!(packages[0].name, "demo");
}

#[test]
fn dependency_tree_groups_under_roots() {
    let output = "demo v0.1.0\n\u{251c}\u{2500}\u{2500} requests v2.31.0\n\u{2514}\u{2500}\u{2500} rich v13.0.0\nother v2.0.0\n\u{2514}\u{2500}\u{2500} click v8.1.0\n";
    let tree = parse_dependency_tree(output);
    assert_eq!(tree.total_count, 2);
    assert_eq!(tree.packages.len(), 2);
    assert_eq!(tree.packages[0].name, "demo");
    assert_eq!(tree.packages[0].depth, 0);
    let deps: Vec<&str> =
        tree.packages[0].dependencies.iter().map(|d| d.name.as_str()).collect();
    assert_eq!(deps, vec!["requests", "rich"]);
    assert_eq!(tree.packages[1].name, "other");
    assert_eq!(tree.packages[1].dependencies.len(), 1);
}

#[test]
fn check_results_carry_stderr_only_when_present() {
    let diag = RuffDiagnostic {
        rule: "F401".to_string(),
        message: "unused import".to_string(),
        line: 1,
        column: 1,
        end_line: 1,
        end_column: 2,
        severity: "warning".to_string(),
        filename: "main.py".to_string(),
    };
    let clean = build_check_result(vec![diag], 0, String::new());
    assert_eq!(clean.diagnostics.len(), 1);
    assert!(clean.errors.is_empty());
    let noisy = build_check_result(Vec::new(), 2, "warning: something".to_string());
    assert_eq!(noisy.fixed, 2);
    assert_eq!(noisy.errors, vec!["warning: something".to_string()]);
}

#[test]
fn characters_collect_back_into_strings() {
    let chars: Vec<char> = "xabc".chars().collect();
    assert_eq!(chars_to_string(&chars, 1, 4), "abc");
    assert_eq!(chars_to_string(&chars, 2, 2), "");
}

#[test]
fn managers_hold_their_project() {
    let _files = FileManager::new();
    let python = PythonManager::new("/work/demo".to_string());
    assert_eq!(python.project_path, "/work/demo");
}

#[test]
fn fixed_counts_are_non_overlapping() {
    assert_eq!(count_matches("Found 2 errors (2 fixed, 0 remaining). fixed", "fixed"), 2);
    assert_eq!(count_matches("", "fixed"), 0);
    assert_eq!(count_matches("aaaa", "aa"), 2);
}

#[test]
fn manifest_dependency_fallback_reads_the_list() {
    let manifest = "[project]\nname = \"demo\"\ndependencies = [\n    \"requests>=2.31.0\",\n    \"packaging==23.1\",\n    \"rich\",\n]\n\n[build-system]\n";
    let packages = parse_pyproject_deps(manifest);
    let got: Vec<(&str, &str)> =
        packages.iter().map(|p| (p.name.as_str(), p.version.as_str())).collect();
    assert_eq!(
        got,
        vec![
            ("requests", "2.31.0 (from pyproject.toml)"),
            ("packaging", "23.1"),
            ("rich", "latest (from pyproject.toml)"),
        ]
    );
}

#[test]
fn manifest_fallback_without_dependency_list_is_empty() {
    assert!(parse_pyproject_deps("[project]\nname = \"demo\"\n").is_empty());
}

#[test]
fn listings_sort_directories_first_then_folded_names() {
    let entry = |name: &str, dir: bool| FileItem {
        name: name.to_string(),
        path: format!("/p/{}", name),
        is_directory: dir,
        size: if dir { None } else { Some(1) },
    };
    let sorted = sort_listing(vec![
        entry("B.txt", false),
        entry("a.txt", false),
        entry("zeta", true),
        entry("Alpha", true),
    ]);
    let names: Vec<&str> = sorted.iter().map(|i| i.name.as_str()).collect();
    assert_eq!(names, vec!["Alpha", "zeta", "a.txt", "B.txt"]);
}

#[test]
fn interpreter_listing_reports_first_tokens() {
    let output = "cpython-3.12.1-linux-x86_64  /usr/bin/python3.12\n\
        pypy-7.3  <download available>\n\
        cpython-3.11.7-linux-x86_64  /usr/bin/python3.11\n";
    assert_eq!(
        parse_python_versions(output),
        vec!["cpython-3.12.1-linux-x86_64", "cpython-3.11.7-linux-x86_64"]
    );
    assert!(parse_python_versions("no interpreters found\n").is_empty());
}

#[test]
fn only_scaffold_boilerplate_is_replaceable() {
    assert!(replaceable_scaffold_file("pyproject.toml"));
    assert!(replaceable_scaffold_file(".gitignore"));
    assert!(replaceable_scaffold_file("README.md"));
    assert!(replaceable_scaffold_file("requirements.txt"));
    assert!(!replaceable_scaffold_file("main.py"));
    assert!(!replaceable_scaffold_file("data"));
}
