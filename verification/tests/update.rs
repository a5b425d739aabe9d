use me::update::{
    artifact_name, clean_version, detect_source_for, is_newer, parse_version, sha256_hex,
    update_confirmed, update_step, upgrade_target, verify_checksum_manifest,
    version_from_release_url, InstallSource, UpdateStep, UpgradeTarget,
};

#[test]
fn detects_macos_homebrew_from_standard_prefix_path() {
    let source = detect_source_for("/opt/homebrew/bin/me", "macos", None, "/opt/homebrew/bin/me", false);
    assert!(matches!(source, InstallSource::Homebrew));
}

#[test]
fn detects_linux_release_binary_from_standard_install_path() {
    let source = detect_source_for("/usr/local/bin/me", "linux", None, "/usr/local/bin/me", false);
    assert!(matches!(source, InstallSource::ReleaseBinary(ref p) if p == "/usr/local/bin/me"));
}

#[test]
fn falls_back_to_unknown_when_source_is_not_safe_to_assume() {
    let source = detect_source_for("/tmp/me", "macos", None, "/tmp/me", false);
    assert!(matches!(source, InstallSource::Unknown(ref p) if p == "/tmp/me"));
}

#[test]
fn homebrew_prefix_and_source_tree_builds() {
    let source = detect_source_for(
        "/usr/local/bin/me",
        "macos",
        Some("/usr/local"),
        "/usr/local/Cellar/me/0.4.0/bin/me",
        false,
    );
    assert!(matches!(source, InstallSource::Homebrew));
    let source = detect_source_for("/work/me/target/release/me", "linux", None, "/work/me/target/release/me", true);
    assert!(matches!(source, InstallSource::Unknown(_)));
    let source = detect_source_for("/Users/a/.local/bin/me", "macos", None, "/Users/a/.local/bin/me", true);
    assert!(matches!(source, InstallSource::ReleaseBinary(_)));
    let source = detect_source_for("/usr/local/bin/me", "macos", None, "/opt/x/me", true);
    assert!(matches!(source, InstallSource::Homebrew));
}

#[test]
fn accepts_matching_sha256_manifest_entry() {
    let bytes = b"release-bytes";
    let manifest = format!("{}  {}\n", sha256_hex(bytes), "me-v0.3.4-linux-x64.tar.gz");

    assert!(verify_checksum_manifest("/tmp/dl/me-v0.3.4-linux-x64.tar.gz", &manifest, bytes).is_ok());
}

#[test]
fn rejects_mismatched_sha256_manifest_entry() {
    let error = verify_checksum_manifest(
        "/tmp/dl/me-v0.3.4-linux-x64.tar.gz",
        "deadbeef  me-v0.3.4-linux-x64.tar.gz\n",
        b"release-bytes",
    )
    .unwrap_err();

    assert!(error.text().contains("checksum verification failed"));
}

#[test]
fn manifest_without_the_artifact_is_refused() {
    let error = verify_checksum_manifest("/tmp/me-v1-linux-x64.tar.gz", "abc  other.tar.gz\n", b"x")
        .unwrap_err();
    assert_eq!(
        error.text(),
        "checksum manifest did not include the downloaded artifact"
    );
}

#[test]
fn manifest_names_may_start_with_dot_slash_and_case_is_ignored() {
    let bytes = b"abc";
    let upper = sha256_hex(bytes).to_uppercase();
    let manifest = format!("# sums\n{}  ./me-v1-linux-x64.tar.gz\n", upper);
    assert!(verify_checksum_manifest("me-v1-linux-x64.tar.gz", &manifest, bytes).is_ok());
}

#[test]
fn sha256_matches_known_digests() {
    assert_eq!(
        sha256_hex(b""),
        "e3b0c44298fc1c149afbf4c8996fb92427ae41e4649b934ca495991b7852b855"
    );
    assert_eq!(
        sha256_hex(b"abc"),
        "ba7816bf8f01cfea414140de5dae2223b00361a396177a9cb410ff61f20015ad"
    );
}

#[test]
fn versions_compare_by_numeric_parts() {
    assert_eq!(parse_version("v1.20.3-rc4"), vec![1, 20, 3, 4]);
    assert_eq!(parse_version("99999999999999999999.1"), vec![0, 1]);
    assert!(is_newer("0.4.1", "0.4.0"));
    assert!(is_newer("0.10.0", "0.9.9"));
    assert!(is_newer("1.0.0.1", "1.0.0"));
    assert!(!is_newer("0.4.0", "0.4.0"));
    assert!(!is_newer("0.3.9", "0.4.0"));
    assert_eq!(clean_version("  vv0.4.0\n"), "0.4.0");
}

#[test]
fn latest_version_comes_from_the_redirect_url() {
    assert_eq!(
        version_from_release_url("https://github.com/harveyTon/me/releases/tag/v0.5.0\n").as_deref(),
        Some("0.5.0")
    );
    assert_eq!(version_from_release_url("https://example.com/"), None);
}

#[test]
fn artifacts_per_platform() {
    assert_eq!(
        artifact_name("v0.4.0", "macos", "aarch64").as_deref(),
        Some("me-v0.4.0-macos-arm64.tar.gz")
    );
    assert_eq!(
        artifact_name("v0.4.0", "windows", "x86_64").as_deref(),
        Some("me-v0.4.0-windows-x64.zip")
    );
    assert_eq!(artifact_name("v0.4.0", "freebsd", "x86_64"), None);
}

#[test]
fn update_flow_decisions() {
    assert_eq!(update_step("0.4.0", "0.4.0", false, false), UpdateStep::UpToDate);
    assert_eq!(update_step("0.5.0", "0.4.0", true, false), UpdateStep::CheckOnly);
    assert_eq!(update_step("0.5.0", "0.4.0", false, false), UpdateStep::Confirm);
    assert_eq!(update_step("0.5.0", "0.4.0", false, true), UpdateStep::Upgrade);
    assert!(update_confirmed("\n"));
    assert!(update_confirmed(" YES "));
    assert!(!update_confirmed("n"));
    assert!(matches!(
        upgrade_target(&InstallSource::Homebrew),
        Ok(UpgradeTarget::Homebrew)
    ));
    assert_eq!(
        upgrade_target(&InstallSource::Unknown("/x/me".into()))
            .err()
            .unwrap()
            .text(),
        "unsupported or unknown install source; please update me manually"
    );
}
