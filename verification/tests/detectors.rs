use me::context::compose::{compose_file, compose_summary, is_compose_variant, summary_from_fields};
use me::context::detectors::{
    detect_in, tool_needed, NodeDetector, ProjectDetector, ProjectDir, Tool, ToolVersions,
};
use me::context::project::{detail_priority, project_context, project_priority};

fn dir(entries: &[&str]) -> ProjectDir {
    ProjectDir {
        entries: entries.iter().map(|e| e.to_string()).collect(),
        virtual_env: None,
        versions: ToolVersions {
            rustc: None,
            node: None,
            python3: None,
            python: None,
            go: None,
            java: None,
        },
        compose_contents: None,
    }
}

fn kinds(entries: &[&str], fast: bool) -> Vec<String> {
    detect_in(&dir(entries), fast)
        .into_iter()
        .map(|c| c.kind)
        .collect()
}

#[test]
fn rust_detector_works_in_normal_mode() {
    let mut d = dir(&["Cargo.toml"]);
    d.versions.rustc = Some("1.94.1".into());
    let detected = detect_in(&d, false);
    assert_eq!(detected.len(), 1);
    assert_eq!(detected[0].kind, "rust");
    assert_eq!(detected[0].version.as_deref(), Some("1.94.1"));
}

#[test]
fn rust_detector_works_in_fast_mode() {
    let mut d = dir(&["Cargo.toml"]);
    d.versions.rustc = Some("1.94.1".into());
    let detected = detect_in(&d, true);
    assert_eq!(detected.len(), 1);
    assert_eq!(detected[0].kind, "rust");
    assert_eq!(detected[0].version, None);
}

#[test]
fn node_detector_works_in_normal_mode() {
    let mut d = dir(&["package.json", "pnpm-lock.yaml", "turbo.json"]);
    d.versions.node = Some("20.19.6".into());
    let detected = detect_in(&d, false);
    assert_eq!(detected.len(), 1);
    assert_eq!(detected[0].kind, "node");
    assert_eq!(detected[0].version.as_deref(), Some("20.19.6"));
    assert_eq!(detected[0].details, vec!["pnpm".to_string(), "turbo".to_string()]);
}

#[test]
fn node_detector_works_in_fast_mode() {
    let detected = detect_in(&dir(&["package.json"]), true);
    assert_eq!(detected.len(), 1);
    assert_eq!(detected[0].kind, "node");
    assert_eq!(detected[0].version, None);
}

#[test]
fn detector_registry_supports_multiple_project_contexts() {
    assert_eq!(
        kinds(&["package.json", "requirements.txt"], true),
        vec!["node".to_string(), "python".to_string()]
    );
}

#[test]
fn detector_priority_is_fixed_not_detection_order() {
    assert_eq!(
        kinds(&["requirements.txt", "Cargo.toml"], true),
        vec!["rust".to_string(), "python".to_string()]
    );
    assert_eq!(
        kinds(&["compose.yaml", "main.c", "Makefile", "Gemfile", "go.mod"], true),
        vec![
            "go".to_string(),
            "ruby".to_string(),
            "c/cpp".to_string(),
            "docker compose".to_string()
        ]
    );
}

#[test]
fn python_detector_includes_virtualenv_name() {
    let detected = detect_in(&dir(&["requirements.txt", ".venv"]), true);
    assert_eq!(detected.len(), 1);
    assert_eq!(detected[0].kind, "python");
    assert_eq!(detected[0].details, vec![".venv".to_string()]);

    let mut d = dir(&["pyproject.toml", ".venv"]);
    d.virtual_env = Some("/home/a/envs/work".into());
    d.versions.python = Some("3.11.2".into());
    let detected = detect_in(&d, false);
    assert_eq!(detected[0].details, vec!["work".to_string()]);
    assert_eq!(detected[0].version.as_deref(), Some("3.11.2"));
}

#[test]
fn java_detector_distinguishes_gradle_and_maven() {
    let gradle = detect_in(&dir(&["build.gradle"]), true);
    assert_eq!(gradle[0].kind, "java");
    assert_eq!(gradle[0].details, vec!["gradle".to_string()]);

    let mut maven = dir(&["pom.xml"]);
    maven.versions.java = Some("21.0.2".into());
    let maven = detect_in(&maven, false);
    assert_eq!(maven[0].kind, "java");
    assert_eq!(maven[0].details, vec!["maven".to_string()]);
    assert_eq!(maven[0].version.as_deref(), Some("21"));
}

#[test]
fn c_cpp_only_triggers_on_build_signals() {
    assert!(detect_in(&dir(&["main.cpp"]), true).is_empty());
    let detected = detect_in(&dir(&["CMakeLists.txt"]), true);
    assert_eq!(detected.len(), 1);
    assert_eq!(detected[0].kind, "c/cpp");
}

#[test]
fn extension_signals() {
    assert_eq!(kinds(&["App.csproj"], true), vec!["csharp".to_string()]);
    assert_eq!(kinds(&[".sln"], true), Vec::<String>::new());
    assert_eq!(kinds(&["x-1.0.rockspec"], true), vec!["lua".to_string()]);
    assert_eq!(kinds(&["a.Rproj"], true), vec!["r".to_string()]);
    assert_eq!(kinds(&["DESCRIPTION", "Package.swift", "composer.json"], true), vec![
        "swift".to_string(),
        "php".to_string(),
        "r".to_string()
    ]);
}

#[test]
fn node_details_pick_one_package_manager() {
    let d = dir(&["package.json", "nx.json", "yarn.lock", "package-lock.json"]);
    let found = NodeDetector.detect(&d, true);
    assert_eq!(found[0].details, vec!["yarn".to_string(), "nx".to_string()]);
}

#[test]
fn tools_run_only_for_detected_projects() {
    let d = dir(&["Cargo.toml", "settings.gradle.kts"]);
    assert!(tool_needed(Tool::Rustc, &d, false));
    assert!(tool_needed(Tool::Java, &d, false));
    assert!(!tool_needed(Tool::Rustc, &d, true));
    assert!(!tool_needed(Tool::Node, &d, false));
}

#[test]
fn priorities_and_detail_order() {
    assert_eq!(project_priority("rust"), 0);
    assert_eq!(project_priority("c/cpp"), 11);
    assert_eq!(project_priority("docker compose"), usize::MAX);
    assert_eq!(detail_priority(".venv"), 100);
    let p = project_context("node", None, vec!["turbo".into(), "other".into(), "pnpm".into()]);
    assert_eq!(p.details, vec!["pnpm".to_string(), "turbo".to_string(), "other".to_string()]);
}

#[test]
fn compose_files_and_summary() {
    let names = vec!["docker-compose.yml".to_string(), "compose.yaml".to_string()];
    assert_eq!(compose_file(&names).as_deref(), Some("compose.yaml"));
    let names = vec!["compose.prod.yml".to_string(), "compose.dev.yaml".to_string(), "x".into()];
    assert_eq!(compose_file(&names).as_deref(), Some("compose.dev.yaml"));
    assert!(!is_compose_variant("compose.json"));
    let (name, count) = compose_summary(Some("name: \" myapp \"\nservices:\n  web: {}\n  db: {}\n"));
    assert_eq!(name.as_deref(), Some("myapp"));
    assert_eq!(count, Some(2));
    assert_eq!(compose_summary(Some("services: [")), (None, None));
    assert_eq!(compose_summary(None), (None, None));
    assert_eq!(summary_from_fields(Some("  ".into()), Some(3)), (None, Some(3)));
}

#[test]
fn compose_detector_reads_the_summary_outside_fast_mode() {
    let mut d = dir(&["compose.yml"]);
    d.compose_contents = Some("name: shop\nservices:\n  a: {}\n".into());
    let slow = detect_in(&d, false);
    assert_eq!(slow[0].kind, "docker compose");
    assert_eq!(slow[0].project_name.as_deref(), Some("shop"));
    assert_eq!(slow[0].service_count, Some(1));
    let fast = detect_in(&d, true);
    assert_eq!(fast[0].project_name, None);
}
