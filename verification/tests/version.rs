use me::context::version::{extract_version, major_version, version_from_output};

#[test]
fn strips_node_v_prefix() {
    assert_eq!(extract_version("v20.19.6"), "20.19.6");
    assert_eq!(extract_version("node v20.19.6"), "20.19.6");
}

#[test]
fn keeps_rust_style_version_plain() {
    assert_eq!(
        extract_version("rustc 1.94.1 (abc123 2026-03-25)"),
        "1.94.1"
    );
}

#[test]
fn strips_go_prefix() {
    assert_eq!(
        extract_version("go version go1.24.0 darwin/arm64"),
        "1.24.0"
    );
}

#[test]
fn trims_quoted_java_version() {
    assert_eq!(
        extract_version("openjdk version \"21.0.2\" 2024-01-16"),
        "21.0.2"
    );
}

#[test]
fn keeps_major_component() {
    assert_eq!(major_version("21.0.2"), "21");
}

#[test]
fn output_without_a_version_is_kept_whole() {
    assert_eq!(extract_version("unknown build"), "unknown build");
    assert_eq!(major_version("21"), "21");
}

#[test]
fn command_output_prefers_stdout_then_stderr() {
    assert_eq!(
        version_from_output(true, "  \n", "Python 3.12.1\n").as_deref(),
        Some("3.12.1")
    );
    assert_eq!(version_from_output(false, "v1.0", ""), None);
    assert_eq!(version_from_output(true, "", " "), None);
}
