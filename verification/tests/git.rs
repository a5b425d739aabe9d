use me::context::git::{
    git_search_step, gitdir_pointer, head_name_fast, head_ref, loose_tag_holds, loose_tag_name,
    packed_tag_for_oid, reference_name,
    resolved_ref, tag_for_oid, GitEntry, GitSearch, HeadRef,
};

const OID: &str = "1234567890abcdef1234567890abcdef12345678";

#[test]
fn detects_branch_from_head_ref() {
    assert_eq!(resolved_ref("ref: refs/heads/main", None).as_deref(), Some("main"));
}

#[test]
fn detects_detached_head_at_tag() {
    assert!(matches!(head_ref(OID), HeadRef::Detached(_)));
    let tag = tag_for_oid(Some("n8n@2.2.4"), None, OID);
    assert_eq!(resolved_ref(OID, tag.as_deref()).as_deref(), Some("n8n@2.2.4"));
}

#[test]
fn detects_detached_head_at_packed_tag() {
    let packed = format!("{OID} refs/tags/n8n@2.2.4\n");
    let tag = tag_for_oid(None, Some(&packed), OID);
    assert_eq!(resolved_ref(OID, tag.as_deref()).as_deref(), Some("n8n@2.2.4"));
}

#[test]
fn prefers_branch_over_other_refs() {
    assert_eq!(
        resolved_ref("ref: refs/heads/main", Some("v2.2.4")).as_deref(),
        Some("main")
    );
}

#[test]
fn falls_back_to_symbolic_ref_when_branch_is_unavailable() {
    assert_eq!(resolved_ref("ref: refs/tags/v2.2.4", None).as_deref(), Some("v2.2.4"));
    assert_eq!(reference_name("refs/remotes/origin/main").as_deref(), Some("origin/main"));
    assert_eq!(reference_name("HEAD").as_deref(), Some("HEAD"));
    assert_eq!(reference_name(""), None);
}

#[test]
fn omits_git_context_when_no_branch_or_ref_exists() {
    assert_eq!(resolved_ref(OID, None), None);
    assert_eq!(resolved_ref("not a ref", None), None);
    assert_eq!(resolved_ref("abc12", Some("t")), None);
}

#[test]
fn fast_detects_detached_head_as_short_oid() {
    assert_eq!(head_name_fast(OID).as_deref(), Some("1234567890ab"));
    assert_eq!(head_name_fast("abcdef1").as_deref(), Some("abcdef1"));
    assert_eq!(head_name_fast("ref: refs/heads/dev").as_deref(), Some("dev"));
    assert_eq!(head_name_fast("ref: refs/tags/v1"), None);
}

#[test]
fn packed_refs_follow_peeled_lines_and_skip_comments() {
    let raw = "# pack-refs with: peeled\nffff refs/tags/v1\n^1234567\naaaa refs/heads/main\n";
    assert_eq!(packed_tag_for_oid(raw, "1234567").as_deref(), Some("v1"));
    assert_eq!(packed_tag_for_oid(raw, "aaaa"), None);
    assert_eq!(packed_tag_for_oid("lonely\nabc refs/tags/x\n", "abc"), None);
}

#[test]
fn git_dir_search_steps() {
    assert!(matches!(
        git_search_step("/r", &GitEntry::Directory, false),
        GitSearch::Found(ref p) if p == "/r/.git"
    ));
    assert!(matches!(
        git_search_step("/r", &GitEntry::File(Some("gitdir: ../m/.git/worktrees/r\n".into())), false),
        GitSearch::CheckGitdir(ref p) if p == "/r/../m/.git/worktrees/r"
    ));
    assert!(matches!(
        git_search_step("/r", &GitEntry::File(Some("junk".into())), false),
        GitSearch::Stop
    ));
    assert!(matches!(git_search_step("/r", &GitEntry::Missing, true), GitSearch::Stop));
    assert!(matches!(git_search_step("/r", &GitEntry::Missing, false), GitSearch::Parent));
    assert_eq!(gitdir_pointer("gitdir: x").as_deref(), Some("x"));
}

#[test]
fn loose_tag_files_match_on_their_trimmed_contents() {
    assert!(loose_tag_holds(&format!("{OID}\n"), OID));
    assert!(loose_tag_holds(&format!("  {OID}  "), OID));
    assert!(!loose_tag_holds("1234567\n", OID));
    assert!(!loose_tag_holds("", OID));
}

#[test]
fn loose_tag_names_use_forward_slashes() {
    assert_eq!(loose_tag_name("v1.0.0"), "v1.0.0");
    assert_eq!(loose_tag_name("release\\v2"), "release/v2");
    assert_eq!(loose_tag_name("a/b\\c"), "a/b/c");
}
