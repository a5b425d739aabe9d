use me::context::ssh::{detect_with, is_sshd_command, parse_pid, process_command, SshEnv};

fn env() -> SshEnv {
    SshEnv {
        ssh_connection: None,
        ssh_client: None,
        ssh_tty: None,
        sudo_user: None,
        sudo_uid: None,
    }
}

#[test]
fn local_session_is_not_ssh() {
    assert!(detect_with(&env(), None).is_none());
}

#[test]
fn ssh_env_marks_session_remote() {
    let mut e = env();
    e.ssh_connection = Some("client server".to_owned());
    let detected = detect_with(&e, None);
    assert!(detected.is_some_and(|ctx| ctx.remote && ctx.connection.as_deref() == Some("client server")));
}

#[test]
fn sudo_ssh_session_uses_parent_chain_fallback() {
    let mut e = env();
    e.sudo_user = Some("tiger".to_owned());
    let detected = detect_with(&e, Some(vec!["sudo".into(), "zsh".into(), "sshd".into()]));
    assert!(detected.is_some_and(|ctx| ctx.remote));
}

#[test]
fn sudo_ssh_session_accepts_sshd_session_command_names() {
    let mut e = env();
    e.sudo_uid = Some("501".to_owned());
    let detected = detect_with(
        &e,
        Some(vec!["sudo".into(), "bash".into(), "sshd: tiger@pts/0".into()]),
    );
    assert!(detected.is_some_and(|ctx| ctx.remote));
}

#[test]
fn sudo_ssh_session_accepts_sshd_command_paths() {
    let mut e = env();
    e.sudo_user = Some("tiger".to_owned());
    let detected = detect_with(
        &e,
        Some(vec!["sudo".into(), "zsh".into(), "/usr/sbin/sshd -D".into()]),
    );
    assert!(detected.is_some_and(|ctx| ctx.remote));
}

#[test]
fn ancestors_count_only_under_sudo() {
    let detected = detect_with(&env(), Some(vec!["sshd".into()]));
    assert!(detected.is_none());
    assert!(!is_sshd_command("sshdx"));
    assert!(is_sshd_command("sshd-session"));
    assert!(!is_sshd_command(""));
}

#[test]
fn ps_output_parsing() {
    assert_eq!(parse_pid(" 4242\n"), Some(4242));
    assert_eq!(parse_pid("-7"), Some(-7));
    assert_eq!(parse_pid("x"), None);
    assert_eq!(parse_pid("99999999999"), None);
    assert_eq!(process_command(true, " zsh \n").as_deref(), Some("zsh"));
    assert_eq!(process_command(false, "zsh"), None);
}
