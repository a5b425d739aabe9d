use me::context::container::{cgroup_id, detect as detect_container};
use me::context::{detect, wanted_parts, DetectedContext};
use me::config::ContextConfig;
use me::model::{GitContext, RuntimeInfo, SshContext};
use me::providers::identity::{identity_from, me_info};
use me::providers::network::{collect_from, LocalAddress};
use me::providers::runtime::{parent_pid_from, shell_name, tty_name};

#[test]
fn splits_ipv4_and_ipv6_addresses() {
    let collected = collect_from(Some(vec![
        LocalAddress::V4([192, 168, 1, 10], "192.168.1.10".into()),
        LocalAddress::V6([0xfd12, 0, 0, 0, 0, 0, 0, 1], "fd12::1".into()),
    ]));

    assert_eq!(collected.ipv4_local_ips, vec!["192.168.1.10"]);
    assert_eq!(collected.ipv6_local_ips, vec!["fd12::1"]);
}

#[test]
fn quietly_returns_empty_network_info_on_collection_failure() {
    let collected = collect_from(None);
    assert!(collected.ipv4_local_ips.is_empty());
    assert!(collected.ipv6_local_ips.is_empty());
}

#[test]
fn loopback_and_link_local_addresses_are_dropped_and_the_rest_sorted_once() {
    let collected = collect_from(Some(vec![
        LocalAddress::V4([127, 0, 0, 1], "127.0.0.1".into()),
        LocalAddress::V4([169, 254, 3, 4], "169.254.3.4".into()),
        LocalAddress::V4([192, 168, 1, 10], "192.168.1.10".into()),
        LocalAddress::V4([10, 0, 0, 5], "10.0.0.5".into()),
        LocalAddress::V4([192, 168, 1, 10], "192.168.1.10".into()),
        LocalAddress::V6([0, 0, 0, 0, 0, 0, 0, 1], "::1".into()),
        LocalAddress::V6([0, 0, 0, 0, 0, 0, 0, 0], "::".into()),
        LocalAddress::V6([0xfe80, 0, 0, 0, 0, 0, 0, 9], "fe80::9".into()),
        LocalAddress::V6([0xfd12, 0, 0, 0, 0, 0, 0, 2], "fd12::2".into()),
        LocalAddress::V6([0xfd12, 0, 0, 0, 0, 0, 0, 1], "fd12::1".into()),
    ]));
    assert_eq!(collected.ipv4_local_ips, vec!["10.0.0.5", "192.168.1.10"]);
    assert_eq!(collected.ipv6_local_ips, vec!["fd12::1", "fd12::2"]);
}

#[test]
fn container_ids_come_from_long_hex_runs() {
    assert_eq!(
        cgroup_id("0::/docker/0123456789abcdef0123\n").as_deref(),
        Some("0123456789ab")
    );
    assert_eq!(cgroup_id("0::/user.slice/abc\n"), None);
    let c = detect_container(true, None).unwrap();
    assert_eq!(c.kind, "docker");
    assert_eq!(c.id, None);
    let c = detect_container(false, Some("1:x:/kubepods/fedcba9876543210")).unwrap();
    assert_eq!(c.kind, "container");
    assert_eq!(c.id.as_deref(), Some("fedcba987654"));
    assert!(detect_container(false, Some("0::/")).is_none());
}

#[test]
fn runtime_values() {
    assert_eq!(shell_name(Some("/bin/zsh"), Some("cmd.exe")).as_deref(), Some("zsh"));
    assert_eq!(shell_name(None, Some("C:/Windows/cmd.exe")).as_deref(), Some("cmd.exe"));
    assert_eq!(parent_pid_from(0), None);
    assert_eq!(parent_pid_from(42), Some(42));
    assert_eq!(tty_name("/dev/ttys001"), "ttys001");
    assert_eq!(tty_name("/dev/pts/3"), "pts/3");
}

#[test]
fn identity_uses_ids_where_names_are_missing() {
    let id = identity_from(
        501,
        20,
        None,
        vec![(20, Some("staff".into())), (12, None)],
        None,
    );
    assert_eq!(id.user, "501");
    assert_eq!(id.groups, vec!["staff".to_string(), "12".to_string()]);
    assert_eq!(id.host, "unknown-host");
}

#[test]
fn context_respects_the_configuration() {
    let found = || DetectedContext {
        ssh: Some(SshContext {
            remote: true,
            connection: None,
        }),
        container: None,
        projects: Vec::new(),
        git: Some(GitContext {
            branch: "main".into(),
        }),
    };
    let mut config = ContextConfig {
        enabled: true,
        project: true,
        container: true,
        ssh: false,
        git: true,
    };
    let ctx = detect(&config, found());
    assert!(ctx.ssh.is_none());
    assert_eq!(ctx.git.unwrap().branch, "main");
    assert_eq!(wanted_parts(&config), (false, true, true, true));
    config.enabled = false;
    let ctx = detect(&config, found());
    assert!(ctx.git.is_none());

    let root = identity_from(0, 0, Some("root".into()), Vec::new(), Some("h".into()));
    let info = me_info(
        root,
        RuntimeInfo {
            shell: None,
            pid: 1,
            ppid: None,
            tty: None,
        },
        detect(
            &ContextConfig {
                enabled: true,
                project: true,
                container: true,
                ssh: true,
                git: true,
            },
            found(),
        ),
        true,
        me::model::NetworkInfo::default(),
        None,
    );
    assert_eq!(info.privilege, "root");
    assert!(info.sudo);
    assert!(info.ssh);
}
