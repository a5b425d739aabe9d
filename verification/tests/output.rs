use me::config::IconMode;
use me::model::{
    ContainerContext, ContextInfo, Field, GitContext, MeInfo, NetworkInfo, ProjectContext, PwdInfo,
    RuntimeInfo, SshContext, SystemIdentity,
};
use me::output::block::render_block;
use me::output::compact::render_compact;
use me::output::config_fmt::render_config;
use me::output::json::{json_object, render_json, render_json_line, JsonValue};
use me::app::{render, watch_text, AppMode};
use me::output::RenderOptions;

fn normalize_newlines(value: &str) -> String {
    value.replace("\r\n", "\n")
}

fn project(kind: &str, version: Option<&str>, details: &[&str]) -> ProjectContext {
    ProjectContext {
        kind: kind.into(),
        version: version.map(|v| v.to_string()),
        project_name: None,
        service_count: None,
        details: details.iter().map(|d| d.to_string()).collect(),
    }
}

fn sample_info() -> MeInfo {
    MeInfo {
        identity: SystemIdentity {
            user: "tiger".into(),
            uid: 501,
            gid: 20,
            groups: vec![
                "staff".into(),
                "admin".into(),
                "_developer".into(),
                "access_bpf".into(),
                "everyone".into(),
            ],
            host: "MacBook.local".into(),
        },
        runtime: RuntimeInfo {
            shell: Some("zsh".into()),
            pid: 123,
            ppid: Some(1),
            tty: Some("ttys001".into()),
        },
        privilege: "user".into(),
        sudo: false,
        ssh: false,
        network: NetworkInfo {
            ipv4_local_ips: vec![
                "192.168.1.10".into(),
                "10.0.0.5".into(),
                "172.16.0.3".into(),
            ],
            ipv6_local_ips: vec!["fd12::1".into(), "fd12::2".into()],
        },
        pwd: Some(PwdInfo {
            raw: "/Users/tiger/dev/me".into(),
            display: "/Users/tiger/dev/me".into(),
        }),
        context: ContextInfo {
            ssh: Some(SshContext {
                remote: true,
                connection: Some("client".into()),
            }),
            container: Some(ContainerContext {
                kind: "docker".into(),
                id: Some("abcdef123456".into()),
            }),
            projects: vec![project("rust", Some("1.0"), &[])],
            git: Some(GitContext {
                branch: "main".into(),
            }),
        },
    }
}

fn plain_block(info: &MeInfo) -> String {
    render_block(info, &Field::defaults(), &RenderOptions::plain_for_tests())
}

const GOLDEN_BLOCK: &str = "identity:
  user:   tiger
  host:   MacBook
  shell:  zsh

system:
  uid:     501
  gid:     20
  groups:  staff, admin, _developer (+2)
  pid:     123
  ppid:    1
  tty:     ttys001

session:
  privilege:  user
  sudo:       no
  ssh:        no

network:
  ipv4:  192.168.1.10 (+2)
  ipv6:  fd12::1 (+1)

location:
  pwd:      /Users/tiger/dev/me
  context:  docker, rust 1.0 \u{b7} git(main)
";

const GOLDEN_COMPACT: &str = "tiger@MacBook \u{b7} docker \u{b7} rust 1.0 \u{b7} git:main \u{b7} me\n";

#[test]
fn global_default_fields_still_include_shell() {
    assert!(Field::defaults().contains(&Field::Shell));
}

#[test]
fn config_default_output_still_includes_shell() {
    let rendered = render_config(
        &sample_info(),
        &Field::defaults(),
        &RenderOptions::plain_for_tests(),
    );
    assert!(rendered.contains("shell = zsh"));
}

#[test]
fn config_format_is_stable() {
    let options = RenderOptions::plain_for_tests();
    let rendered = render_config(
        &sample_info(),
        &[Field::User, Field::Shell, Field::Pwd],
        &options,
    );
    assert!(rendered.contains("user = tiger"));
    assert!(rendered.contains("shell = zsh"));
    assert!(rendered.contains("pwd = /Users/tiger/dev/me"));
}

#[test]
fn config_format_uses_equals() {
    let rendered = render_config(&sample_info(), &[Field::User], &RenderOptions::plain_for_tests());
    assert!(rendered.contains("user = "));
    assert_eq!(rendered, "user = tiger\n");
}

#[test]
fn block_truncates_groups_and_network_by_default() {
    let rendered = plain_block(&sample_info());
    assert!(rendered.contains("  groups:"));
    assert!(rendered.contains("staff, admin, _developer (+2)"));
    assert!(rendered.contains("  ipv4:"));
    assert!(rendered.contains("192.168.1.10 (+2)"));
    assert!(rendered.contains("  ipv6:"));
    assert!(rendered.contains("fd12::1 (+1)"));
    assert!(!rendered.contains("summary:"));
}

#[test]
fn block_removes_header_and_moves_identity_into_body() {
    let rendered = plain_block(&sample_info());
    assert!(!rendered.starts_with("tiger@MacBook"));
    assert!(rendered.starts_with("identity:\n"));
    assert!(rendered.contains("  user:"));
    assert!(rendered.contains("tiger\n"));
    assert!(rendered.contains("  host:"));
    assert!(rendered.contains("MacBook\n"));
    assert!(rendered.contains("  shell:"));
    assert!(rendered.contains("zsh\n"));
}

fn assert_group_order(rendered: &str) {
    let identity = rendered.find("identity:\n").unwrap();
    let system = rendered.find("\nsystem:\n").unwrap();
    let session = rendered.find("\nsession:\n").unwrap();
    let network = rendered.find("\nnetwork:\n").unwrap();
    let location = rendered.find("\nlocation:\n").unwrap();

    assert!(identity < system);
    assert!(system < session);
    assert!(session < network);
    assert!(network < location);
}

#[test]
fn block_groups_appear_in_fixed_order() {
    assert_group_order(&plain_block(&sample_info()));
}

#[test]
fn block_default_output_places_pwd_and_context_in_location_group() {
    let rendered = plain_block(&sample_info());
    assert!(rendered.contains("location:\n"));
    assert!(rendered.contains("  pwd:"));
    assert!(rendered.contains("/Users/tiger/dev/me\n"));
    assert!(rendered.contains("  context:"));
    assert!(rendered.contains("docker, rust 1.0 \u{b7} git(main)\n"));
}

#[test]
fn colored_block_does_not_force_truecolor_on_values() {
    let mut options = RenderOptions::plain_for_tests();
    options.color = true;
    let rendered = render_block(&sample_info(), &Field::defaults(), &options);
    assert!(!rendered.contains("[38;2;"));
}

#[test]
fn colored_block_labels_stay_ansi_safe_in_light_and_dark_modes() {
    let mut light = RenderOptions::plain_for_tests();
    light.color = true;
    light.light_theme = true;

    let light_rendered = render_block(&sample_info(), &Field::defaults(), &light);
    let mut dark = RenderOptions::plain_for_tests();
    dark.color = true;
    let dark_rendered = render_block(&sample_info(), &Field::defaults(), &dark);

    assert!(dark_rendered.contains("\u{1b}["));
    assert!(light_rendered.contains("\u{1b}["));
    assert!(!dark_rendered.contains("[38;2;"));
    assert!(!light_rendered.contains("[38;2;"));
}

#[test]
fn icon_mode_on_keeps_block_output_plain_text_safe() {
    let mut options = RenderOptions::plain_for_tests();
    options.icons = IconMode::On;
    let rendered = render_block(&sample_info(), &Field::defaults(), &options);
    assert!(!rendered.contains('\u{f489}'));
    assert!(!rendered.contains('\u{f023}'));
    assert!(!rendered.contains('\u{f6ff}'));
}

#[test]
fn context_uses_soft_label_not_decorative_rule() {
    let rendered = plain_block(&sample_info());
    assert!(rendered.contains("\n  context:"));
    assert!(rendered.contains("docker, rust 1.0 \u{b7} git(main)\n"));
    assert!(!rendered.contains("--- context ---"));
}

#[test]
fn block_output_renders_ssh_only_once() {
    let mut info = sample_info();
    info.ssh = true;
    let rendered = plain_block(&info);
    assert_eq!(rendered.matches("ssh:").count(), 1);
    assert!(rendered.contains("  ssh:        yes"));
}

#[test]
fn block_full_expands_groups_and_network() {
    let mut options = RenderOptions::plain_for_tests();
    options.full = true;
    let rendered = render_block(&sample_info(), &Field::defaults(), &options);
    assert!(rendered.contains("identity:\n") && rendered.contains("\nsystem:\n"));
    assert!(rendered
        .contains("  groups:\n    staff\n    admin\n    _developer\n    access_bpf\n    everyone"));
    assert!(rendered.contains(
        "network:\n  ipv4:\n    192.168.1.10\n    10.0.0.5\n    172.16.0.3\n  ipv6:\n    fd12::1\n    fd12::2"
    ));
    assert!(!rendered.contains("summary:"));
}

#[test]
fn block_full_uses_same_group_structure() {
    let mut options = RenderOptions::plain_for_tests();
    options.full = true;
    assert_group_order(&render_block(&sample_info(), &Field::defaults(), &options));
}

#[test]
fn block_selector_does_not_render_context_section() {
    let rendered = render_block(
        &sample_info(),
        &[Field::Network],
        &RenderOptions::plain_for_tests(),
    );
    assert!(rendered.contains("network:"));
    assert!(!rendered.contains("context"));
    assert!(!rendered.contains("project:"));
}

#[test]
fn selector_does_not_leak_project_context() {
    let rendered = render_block(
        &sample_info(),
        &[Field::Network],
        &RenderOptions::plain_for_tests(),
    );
    assert!(rendered.contains("network:"));
    assert!(!rendered.contains("--- context ---"));
    assert!(!rendered.contains("project:"));
}

#[test]
fn block_omits_context_cleanly_when_absent() {
    let mut info = sample_info();
    info.context = ContextInfo::default();
    let rendered = plain_block(&info);
    assert!(rendered.contains("location:\n"));
    assert!(rendered.contains("  pwd:"));
    assert!(rendered.contains("/Users/tiger/dev/me\n"));
    assert!(!rendered.contains("context:"));
}

#[test]
fn compact_limits_context_tags() {
    let mut info = sample_info();
    info.ssh = true;
    let rendered = render_compact(&info, &Field::defaults());
    assert!(rendered.contains(" \u{b7} ssh \u{b7} rust 1.0 \u{b7} git:main \u{b7} me"));
    assert!(!rendered.contains("docker"));
}

#[test]
fn compact_uses_detected_container_kind() {
    let mut info = sample_info();
    info.context.container = Some(ContainerContext {
        kind: "container".into(),
        id: None,
    });
    let rendered = render_compact(&info, &Field::defaults());
    assert!(rendered.contains(" \u{b7} container \u{b7} rust 1.0 \u{b7} git:main \u{b7} me"));
    assert!(!rendered.contains(" \u{b7} docker \u{b7} "));
}

#[test]
fn compact_single_field_subset_prints_value() {
    let rendered = render_compact(&sample_info(), &[Field::User]);
    assert!(!rendered.is_empty());
    assert!(!rendered.contains("rust"));
    assert_eq!(rendered, "tiger\n");
}

#[test]
fn block_output_matches_golden_snapshot() {
    let rendered = plain_block(&sample_info());
    assert_eq!(normalize_newlines(&rendered), normalize_newlines(GOLDEN_BLOCK));
}

#[test]
fn compact_output_matches_golden_snapshot() {
    let rendered = render_compact(&sample_info(), &Field::defaults());
    assert_eq!(normalize_newlines(&rendered), normalize_newlines(GOLDEN_COMPACT));
}

#[test]
fn block_shows_both_projects_and_git() {
    let mut info = sample_info();
    info.context
        .projects
        .push(project("python", Some("3.12"), &[".venv"]));
    let rendered = plain_block(&info);
    assert!(rendered.contains("context:"));
    assert!(rendered.contains("docker, rust 1.0 \u{b7} python 3.12 (.venv) \u{b7} git(main)"));
}

fn four_projects(node_details: &[&str]) -> Vec<ProjectContext> {
    vec![
        project("node", Some("22.0.0"), node_details),
        project("python", Some("3.12"), &[".venv"]),
        project("go", Some("1.24.0"), &[]),
        project("java", Some("21"), &["gradle"]),
    ]
}

#[test]
fn block_folds_project_related_items_after_three_entries() {
    let mut info = sample_info();
    info.context.projects = four_projects(&["pnpm", "turbo"]);
    let rendered = plain_block(&info);
    assert!(rendered.contains(
        "docker, node 22.0.0 (pnpm, turbo) \u{b7} python 3.12 (.venv) \u{b7} go 1.24.0 (+2)"
    ));
    assert!(!rendered.contains("java 21 (gradle)"));
}

#[test]
fn block_shows_exactly_three_context_items_without_folding() {
    let mut info = sample_info();
    info.context.projects = vec![
        project("node", Some("22.0.0"), &["pnpm", "turbo"]),
        project("python", Some("3.12"), &[".venv"]),
    ];
    info.context.git = Some(GitContext {
        branch: "feature/nextjs-frontend".into(),
    });

    let rendered = plain_block(&info);

    assert!(rendered.contains(
        "docker, node 22.0.0 (pnpm, turbo) \u{b7} python 3.12 (.venv) \u{b7} git(feature/nextjs-frontend)"
    ));
    assert!(!rendered.contains("git(feature/nextjs-frontend) (+"));
}

#[test]
fn compact_shows_multiple_project_related_items_in_priority_order() {
    let mut info = sample_info();
    info.context.projects = vec![
        project("python", Some("3.12"), &[".venv"]),
        project("node", Some("22.0.0"), &["pnpm", "turbo"]),
    ];
    let rendered = render_compact(&info, &Field::defaults());
    assert!(rendered.contains(
        "tiger@MacBook \u{b7} docker \u{b7} node 22.0.0 (pnpm, turbo) \u{b7} python 3.12 (.venv) \u{b7} git:main \u{b7} me\n"
    ));
}

#[test]
fn compact_folds_context_items_after_three_entries() {
    let mut info = sample_info();
    info.context.projects = four_projects(&["pnpm", "turbo", "nx"]);
    info.context.git = Some(GitContext {
        branch: "feature/nextjs-frontend".into(),
    });

    let rendered = render_compact(&info, &Field::defaults());

    assert!(rendered.contains(
        "tiger@MacBook \u{b7} docker \u{b7} node 22.0.0 (pnpm, turbo) \u{b7} python 3.12 (.venv) \u{b7} go 1.24.0 (+2) \u{b7} me\n"
    ));
    assert!(!rendered.contains("java 21 (gradle)"));
    assert!(!rendered.contains("git:feature/nextjs-frontend"));
}

#[test]
fn compact_shows_exactly_three_context_items_without_folding() {
    let mut info = sample_info();
    info.context.projects = vec![
        project("node", Some("22.0.0"), &["pnpm", "turbo", "nx"]),
        project("python", Some("3.12"), &[".venv"]),
    ];
    info.context.git = Some(GitContext {
        branch: "feature/nextjs-frontend".into(),
    });

    let rendered = render_compact(&info, &Field::defaults());

    assert!(rendered.contains(
        "tiger@MacBook \u{b7} docker \u{b7} node 22.0.0 (pnpm, turbo) \u{b7} python 3.12 (.venv) \u{b7} git:feature/nextjs-frontend \u{b7} me\n"
    ));
    assert!(!rendered.contains("git:feature/nextjs-frontend (+"));
}

#[test]
fn node_text_output_limits_enhancements_to_two_items() {
    let mut info = sample_info();
    info.context.projects = vec![project(
        "node",
        Some("24.14.1"),
        &["pnpm", "turbo", "nx", "workspace"],
    )];

    let block = plain_block(&info);
    let compact = render_compact(&info, &Field::defaults());

    assert!(block.contains("node 24.14.1 (pnpm, turbo)"));
    assert!(!block.contains("nx"));
    assert!(!block.contains("workspace"));
    assert!(compact.contains("node 24.14.1 (pnpm, turbo)"));
    assert!(!compact.contains("nx"));
    assert!(!compact.contains("workspace"));
}

#[test]
fn git_branch_is_not_truncated_in_text_output() {
    let mut info = sample_info();
    info.context.projects = vec![project("python", Some("3.12"), &[".venv"])];
    info.context.git = Some(GitContext {
        branch: "feature/nextjs-frontend".into(),
    });

    let block = plain_block(&info);
    let compact = render_compact(&info, &Field::defaults());

    assert!(block.contains("git(feature/nextjs-frontend)"));
    assert!(compact.contains("git:feature/nextjs-frontend"));
}

#[test]
fn shared_text_context_semantics_stay_consistent() {
    let mut info = sample_info();
    info.context.container = Some(ContainerContext {
        kind: "container".into(),
        id: Some("abcdef123456".into()),
    });
    info.context.projects = vec![
        project("node", Some("20.19.6"), &["pnpm"]),
        project("python", Some("3.12"), &[".venv"]),
    ];
    info.context.git = Some(GitContext {
        branch: "feature/login".into(),
    });

    let block = plain_block(&info);
    let compact = render_compact(&info, &Field::defaults());
    let config = render_config(&info, &[Field::Context], &RenderOptions::plain_for_tests());

    assert!(block.contains("context:"));
    assert!(block.contains(
        "container, node 20.19.6 (pnpm) \u{b7} python 3.12 (.venv) \u{b7} git(feature/login)"
    ));
    assert!(compact.contains(" \u{b7} container \u{b7} "));
    assert!(compact.contains("git:feature/login"));
    assert!(config.contains(
        "context = container:abcdef123456, node 20.19.6 (pnpm), python 3.12 (.venv), git:feature/login"
    ));
}

#[test]
fn node_version_display_is_plain_in_text_outputs() {
    let mut info = sample_info();
    info.context.projects = vec![project("node", Some("20.19.6"), &["pnpm", "turbo"])];
    info.context.git = Some(GitContext {
        branch: "v2.2.4".into(),
    });

    let block = plain_block(&info);
    let compact = render_compact(&info, &Field::defaults());
    let config = render_config(&info, &[Field::Context], &RenderOptions::plain_for_tests());

    assert!(block.contains("docker, node 20.19.6 (pnpm, turbo) \u{b7} git(v2.2.4)"));
    assert!(compact.contains("node 20.19.6 (pnpm, turbo)"));
    assert!(
        config.contains("context = docker:abcdef123456, node 20.19.6 (pnpm, turbo), git:v2.2.4")
    );
}

#[test]
fn network_output_remains_unchanged_with_dense_context() {
    let mut info = sample_info();
    info.context.projects = four_projects(&["pnpm", "turbo", "nx"]);
    let rendered = plain_block(&info);
    assert!(rendered.contains("network:\n"));
    assert!(rendered.contains("  ipv4:"));
    assert!(rendered.contains("192.168.1.10 (+2)"));
    assert!(rendered.contains("  ipv6:"));
    assert!(rendered.contains("fd12::1 (+1)"));
    assert!(!rendered.contains("summary:"));
}

#[test]
fn block_network_omits_missing_address_family_cleanly() {
    let mut info = sample_info();
    info.network.ipv6_local_ips.clear();

    let rendered = plain_block(&info);
    assert!(rendered.contains("network:\n  ipv4:"));
    assert!(rendered.contains("192.168.1.10 (+2)"));
    assert!(!rendered.contains("\n  ipv6:"));

    info.network.ipv4_local_ips.clear();
    info.network.ipv6_local_ips = vec!["fd12::1".into(), "fd12::2".into()];

    let rendered = plain_block(&info);
    assert!(rendered.contains("network:\n  ipv6:"));
    assert!(rendered.contains("fd12::1 (+1)"));
    assert!(!rendered.contains("\n  ipv4:"));
}

fn compose_projects() -> Vec<ProjectContext> {
    vec![
        project("node", Some("24.14.1"), &["pnpm"]),
        ProjectContext {
            kind: "docker compose".into(),
            version: None,
            project_name: Some("myapp".into()),
            service_count: Some(6),
            details: Vec::new(),
        },
    ]
}

#[test]
fn block_output_formats_docker_compose_project_summary() {
    let mut info = sample_info();
    info.context.projects = compose_projects();

    let rendered = plain_block(&info);

    assert!(rendered.contains(
        "docker, node 24.14.1 (pnpm) \u{b7} docker compose (myapp, 6 services) \u{b7} git(main)"
    ));
}

#[test]
fn compact_output_formats_docker_compose_project_summary() {
    let mut info = sample_info();
    info.context.projects = compose_projects();

    let rendered = render_compact(&info, &Field::defaults());

    assert!(rendered.contains(
        "tiger@MacBook \u{b7} docker \u{b7} node 24.14.1 (pnpm) \u{b7} docker-compose:myapp \u{b7} git:main \u{b7} me\n"
    ));
}

#[test]
fn empty_field_selection_renders_nothing() {
    assert_eq!(plain_block_with(&[]), "");
    assert_eq!(
        render_config(&sample_info(), &[], &RenderOptions::plain_for_tests()),
        ""
    );
}

fn plain_block_with(fields: &[Field]) -> String {
    render_block(&sample_info(), fields, &RenderOptions::plain_for_tests())
}

#[test]
fn root_user_is_shown_as_root_in_compact_identity() {
    let mut info = sample_info();
    info.identity.uid = 0;
    let rendered = render_compact(&info, &Field::defaults());
    assert!(rendered.starts_with("root@MacBook \u{b7} "));
}

#[test]
fn compact_subset_joins_user_and_host() {
    let rendered = render_compact(&sample_info(), &[Field::User, Field::Host, Field::Shell]);
    assert_eq!(rendered, "tiger@MacBook \u{b7} zsh\n");
}

#[test]
fn config_network_joins_both_families() {
    let rendered = render_config(&sample_info(), &[Field::Network], &RenderOptions::plain_for_tests());
    assert_eq!(rendered, "network = 192.168.1.10 (+2), fd12::1 (+1)\n");
}

#[test]
fn json_honors_selected_fields() {
    let rendered = render_json(&sample_info(), &[Field::User, Field::Host]);
    assert!(rendered.contains("\"user\""));
    assert!(rendered.contains("\"host\""));
    assert!(!rendered.contains("\"uid\""));
}

#[test]
fn json_default_output_still_includes_shell() {
    let rendered = render_json(&sample_info(), &Field::defaults());
    assert!(rendered.contains("\"shell\""));
}

#[test]
fn json_default_output_includes_pwd_object() {
    let rendered = render_json(&sample_info(), &Field::defaults());
    assert!(rendered.contains("\"pwd\""));
    assert!(rendered.contains("\"raw\": \"/Users/tiger/dev/me\""));
    assert!(rendered.contains("\"display\": \"/Users/tiger/dev/me\""));
    assert!(rendered.contains("\"ipv4_local_ips\""));
    assert!(rendered.contains("\"ipv6_local_ips\""));
}

#[test]
fn json_ends_with_newline_for_terminal_output() {
    let rendered = render_json(&sample_info(), &[Field::User]);
    assert!(rendered.ends_with('\n'));
}

#[test]
fn json_omits_null_context_members() {
    let mut info = sample_info();
    info.runtime.tty = None;
    info.context.ssh = None;
    info.context.container = None;
    let rendered = render_json(&info, &Field::defaults());
    assert!(!rendered.contains("null"));
    assert!(!rendered.contains("\"tty\""));
    assert!(!rendered.contains("\"container\""));
    assert!(rendered.contains("\"projects\""));
    assert!(rendered.contains("\"git\""));
}

#[test]
fn json_projects_include_version_when_present() {
    let rendered = render_json(&sample_info(), &[Field::Context]);
    assert!(rendered.contains("\"projects\""));
    assert!(rendered.contains("\"version\": \"1.0\""));
    assert!(rendered.contains("\"git\""));
}

#[test]
fn json_project_omits_version_when_absent() {
    let mut info = sample_info();
    info.context.projects = vec![ProjectContext {
        kind: "rust".into(),
        version: None,
        project_name: None,
        service_count: None,
        details: Vec::new(),
    }];
    let rendered = render_json(&info, &[Field::Context]);
    assert!(rendered.contains("\"projects\""));
    assert!(rendered.contains("\"kind\": \"rust\""));
    assert!(rendered.contains("\"git\""));
    assert!(!rendered.contains("\"version\""));
    assert!(!rendered.contains("null"));
}

const GOLDEN_JSON: &str = "{
  \"host\": \"MacBook\",
  \"pwd\": {
    \"display\": \"/Users/tiger/dev/me\",
    \"raw\": \"/Users/tiger/dev/me\"
  },
  \"ssh\": false,
  \"sudo\": false,
  \"user\": \"tiger\"
}
";

#[test]
fn json_output_matches_golden_snapshot() {
    let rendered = render_json(
        &sample_info(),
        &[Field::User, Field::Host, Field::Pwd, Field::Sudo, Field::Ssh],
    );
    assert_eq!(normalize_newlines(&rendered), normalize_newlines(GOLDEN_JSON));
}

#[test]
fn node_version_display_is_plain_across_outputs() {
    let mut info = sample_info();
    info.context.projects = vec![ProjectContext {
        kind: "node".into(),
        version: Some("20.19.6".into()),
        project_name: None,
        service_count: None,
        details: vec!["pnpm".into(), "turbo".into()],
    }];
    info.context.git = Some(GitContext {
        branch: "v2.2.4".into(),
    });

    let block = render_block(&info, &Field::defaults(), &RenderOptions::plain_for_tests());
    let compact = render_compact(&info, &Field::defaults());
    let config = render_config(&info, &[Field::Context], &RenderOptions::plain_for_tests());
    let json = render_json(&info, &[Field::Context]);

    assert!(block.contains("context:"));
    assert!(block.contains("docker, node 20.19.6 (pnpm, turbo) \u{b7} git(v2.2.4)"));
    assert!(compact.contains("node 20.19.6 (pnpm, turbo)"));
    assert!(
        config.contains("context = docker:abcdef123456, node 20.19.6 (pnpm, turbo), git:v2.2.4")
    );
    assert!(json.contains("\"version\": \"20.19.6\""));
    assert!(json.contains("\"details\": ["));
}

#[test]
fn json_shows_projects_and_git() {
    let info = sample_info();
    let rendered = render_json(&info, &[Field::Context]);
    assert!(rendered.contains("\"projects\""));
    assert!(rendered.contains("\"git\""));
}

#[test]
fn json_output_preserves_docker_compose_project_fields() {
    let mut info = sample_info();
    info.context.projects = vec![ProjectContext {
        kind: "docker compose".into(),
        version: None,
        project_name: Some("myapp".into()),
        service_count: Some(6),
        details: Vec::new(),
    }];

    let rendered = render_json(&info, &[Field::Context]);

    assert!(rendered.contains("\"kind\": \"docker compose\""));
    assert!(rendered.contains("\"project_name\": \"myapp\""));
    assert!(rendered.contains("\"service_count\": 6"));
}

#[test]
fn json_object_keeps_field_order_and_skips_absent_values() {
    let mut info = sample_info();
    info.runtime.ppid = None;
    let value = json_object(&info, &[Field::Uid, Field::Ppid, Field::Sudo, Field::Groups]);
    match value {
        JsonValue::Obj(members) => {
            let keys: Vec<&str> = members.iter().map(|(k, _)| k.as_str()).collect();
            assert_eq!(keys, vec!["uid", "sudo", "groups"]);
            assert!(matches!(members[0].1, JsonValue::Num(501)));
            assert!(matches!(members[1].1, JsonValue::Bool(false)));
            match &members[2].1 {
                JsonValue::Arr(items) => assert_eq!(items.len(), 5),
                other => panic!("groups is not an array: {other:?}"),
            }
        }
        other => panic!("not an object: {other:?}"),
    }
}

#[test]
fn json_never_holds_null_even_when_everything_is_absent() {
    let mut info = sample_info();
    info.runtime.shell = None;
    info.runtime.ppid = None;
    info.runtime.tty = None;
    info.pwd = None;
    info.network = NetworkInfo { ipv4_local_ips: Vec::new(), ipv6_local_ips: Vec::new() };
    info.context = ContextInfo::default();
    let rendered = render_json(&info, &Field::defaults());
    assert!(!rendered.contains("null"));
    assert!(!rendered.contains("\"context\""));
    assert!(!rendered.contains("\"ppid\""));
    assert!(rendered.contains("\"ipv4_local_ips\": []"));
}

#[test]
fn json_line_is_one_line_of_the_same_object() {
    let info = sample_info();
    let fields = [Field::User, Field::Uid, Field::Context];
    let line = render_json_line(&info, &fields);
    assert!(line.ends_with('\n'));
    assert_eq!(line.matches('\n').count(), 1);
    let pretty = render_json(&info, &fields);
    let a: serde_json::Value = serde_json::from_str(&line).unwrap();
    let b: serde_json::Value = serde_json::from_str(&pretty).unwrap();
    assert_eq!(a, b);
    assert_eq!(a["uid"], serde_json::Value::from(501u64));
    assert_eq!(a["context"]["git"]["branch"], serde_json::Value::from("main"));
    assert_eq!(a["context"]["ssh"]["connection"], serde_json::Value::from("client"));
    assert_eq!(a["context"]["projects"][0]["kind"], serde_json::Value::from("rust"));
}

#[test]
fn render_and_watch_give_json_for_the_json_layout() {
    let info = sample_info();
    let fields = Field::defaults();
    let options = RenderOptions::plain_for_tests();
    assert_eq!(render(&info, &fields, AppMode::Json, &options), render_json(&info, &fields));
    assert_eq!(watch_text(&info, &fields, AppMode::Json, &options), render_json_line(&info, &fields));
    assert_eq!(
        watch_text(&info, &fields, AppMode::Compact, &options),
        format!("\u{1b}[2J\u{1b}[H{}", render_compact(&info, &fields))
    );
}
