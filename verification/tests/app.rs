use me::app::{plain, should_collect_network, watch_frame, watch_sleep_seconds};
use me::config::PlainMode;
use me::model::{ContextInfo, MeInfo, NetworkInfo, RuntimeInfo, SystemIdentity};

fn info() -> MeInfo {
    MeInfo {
        identity: SystemIdentity {
            user: "tiger".into(),
            uid: 501,
            gid: 20,
            groups: Vec::new(),
            host: "box.local".into(),
        },
        runtime: RuntimeInfo {
            shell: None,
            pid: 1,
            ppid: None,
            tty: None,
        },
        privilege: "user".into(),
        sudo: false,
        ssh: false,
        network: NetworkInfo::default(),
        pwd: None,
        context: ContextInfo::default(),
    }
}

#[test]
fn fast_keeps_network_for_default_fields() {
    assert!(should_collect_network(true, false));
}

#[test]
fn fast_keeps_network_for_explicit_network_request() {
    assert!(should_collect_network(true, true));
}

#[test]
fn plain_outputs_user_at_host() {
    let rendered = plain(&info(), PlainMode::UserHost);
    assert!(rendered.contains('@'));
    assert_eq!(rendered, "tiger@box\n");
    assert_eq!(plain(&info(), PlainMode::User), "tiger\n");
}

#[test]
fn watch_frames_clear_the_screen_and_wait_at_least_a_second() {
    assert_eq!(watch_frame("x\n"), "\u{1b}[2J\u{1b}[Hx\n");
    assert_eq!(watch_sleep_seconds(0), 1);
    assert_eq!(watch_sleep_seconds(5), 5);
}
