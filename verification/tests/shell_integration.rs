use me::cli::{InteractiveMode, LoginMode, Shell};
use me::shell_integration::plan::{
    choose_shell, confirm_answer, display_path, effective_modes, existing_for_other_shells,
    install_report, install_summary, parse_cross_shell_choice, parse_interactive_choice,
    parse_login_choice, plan_target, scan_paths, summary_entries, uninstall_summary,
    SummaryEntry,
};
use me::shell_integration::{
    count_full_blocks, detect_shell_from_contents, find_first_full_block,
    has_partial_or_ambiguous_me_snippet, infer_shell_from_path, interactive_path, login_path,
    looks_complex_prompt, partial_me_snippet, prompt_lines, remove_full_blocks, render_block,
    resolve_targets, upsert_block, BlockChange, CrossShellChoice, TargetFile, TargetRole,
    START_MARKER,
};

#[test]
fn zsh_targets_split_login_and_interactive_files() {
    let home = "/tmp/home";
    let config = "/tmp/home/.config";

    let targets = resolve_targets(
        home,
        config,
        Shell::Zsh,
        None,
        LoginMode::Full,
        InteractiveMode::Compact,
        false,
        false,
    );

    assert_eq!(targets.len(), 2);
    assert!(targets
        .iter()
        .any(|target| target.path == "/tmp/home/.zprofile" && target.has_role(TargetRole::Login)));
    assert!(targets.iter().any(
        |target| target.path == "/tmp/home/.zshrc" && target.has_role(TargetRole::Interactive)
    ));
}

#[test]
fn override_file_combines_roles() {
    let targets = resolve_targets(
        "/tmp/home",
        "/tmp/home/.config",
        Shell::Zsh,
        Some("/tmp/home/.customrc"),
        LoginMode::Full,
        InteractiveMode::Compact,
        false,
        false,
    );

    assert_eq!(targets.len(), 1);
    assert!(targets[0].has_role(TargetRole::Login));
    assert!(targets[0].has_role(TargetRole::Interactive));
}

#[test]
fn bash_login_uses_profile_when_bash_profile_is_absent() {
    assert_eq!(
        login_path("/tmp/dir", "/tmp/dir/.config", Shell::Bash, false, true),
        "/tmp/dir/.profile"
    );
    assert_eq!(
        login_path("/tmp/dir", "/tmp/dir/.config", Shell::Bash, true, true),
        "/tmp/dir/.bash_profile"
    );
    assert_eq!(
        login_path("/tmp/dir", "/tmp/dir/.config", Shell::Bash, false, false),
        "/tmp/dir/.bash_profile"
    );
}

#[test]
fn fish_and_nushell_use_config_dir() {
    let home = "/tmp/home";
    let config = "/tmp/xdg";

    assert_eq!(
        login_path(home, config, Shell::Fish, false, false),
        "/tmp/xdg/fish/config.fish"
    );
    assert_eq!(
        interactive_path(home, config, Shell::Nushell),
        "/tmp/xdg/nushell/config.nu"
    );
}

#[test]
fn block_upsert_is_idempotent() {
    let first = render_block(Shell::Zsh, LoginMode::Full, InteractiveMode::Compact);
    let second = render_block(Shell::Zsh, LoginMode::Full, InteractiveMode::Off);

    let (contents, change) = upsert_block("before\n", &first);
    assert_eq!(change, BlockChange::Added);
    let (contents, change) = upsert_block(&contents, &second);

    assert_eq!(change, BlockChange::Updated);
    assert_eq!(contents.matches(START_MARKER).count(), 1);
    assert!(contents.contains("interactive=none"));
    assert!(!contents.contains("interactive=compact"));
}

#[test]
fn upsert_of_the_same_block_again_is_unchanged() {
    let block = render_block(Shell::Bash, LoginMode::Compact, InteractiveMode::Prompt);
    let (once, change) = upsert_block("alias ll='ls -la'", &block);
    assert_eq!(change, BlockChange::Added);
    assert_eq!(once, format!("alias ll='ls -la'\n\n{block}"));
    let (twice, change) = upsert_block(&once, &block);
    assert_eq!(change, BlockChange::Unchanged);
    assert_eq!(twice, once);
}

#[test]
fn upsert_into_empty_file_is_the_block() {
    let block = render_block(Shell::Fish, LoginMode::Full, InteractiveMode::Off);
    let (contents, change) = upsert_block("", &block);
    assert_eq!(change, BlockChange::Added);
    assert_eq!(contents, block);
}

#[test]
fn remove_full_block_keeps_unmanaged_lines() {
    let block = render_block(Shell::Zsh, LoginMode::Full, InteractiveMode::Compact);
    let (updated, removed) = remove_full_blocks(&format!("before\n{block}after\n"));

    assert_eq!(removed, 1);
    assert_eq!(updated, "before\nafter\n");
}

#[test]
fn remove_counts_every_full_block() {
    let block = render_block(Shell::Zsh, LoginMode::Full, InteractiveMode::Off);
    let text = format!("a\n{block}b\n{block}c\n");
    assert_eq!(count_full_blocks(&text), 2);
    let (updated, removed) = remove_full_blocks(&text);
    assert_eq!(removed, 2);
    assert_eq!(updated, "a\nb\nc\n");
    assert_eq!(count_full_blocks(&updated), 0);
}

#[test]
fn partial_signature_is_not_removed_as_full_block() {
    let contents =
        "# me-managed: shell=zsh login=full interactive=compact version=v0.3.2\nme --compact\n";

    let (updated, removed) = remove_full_blocks(contents);

    assert_eq!(removed, 0);
    assert_eq!(updated, contents);
    assert!(has_partial_or_ambiguous_me_snippet(contents));
}

#[test]
fn unbalanced_markers_and_bare_commands_are_partial() {
    assert!(has_partial_or_ambiguous_me_snippet("# >>> me install >>>\nme\n"));
    assert!(has_partial_or_ambiguous_me_snippet("echo hi\n  me  \n"));
    assert!(!has_partial_or_ambiguous_me_snippet("echo hi\nmeh\n"));
    let block = render_block(Shell::Zsh, LoginMode::Full, InteractiveMode::Compact);
    assert!(!has_partial_or_ambiguous_me_snippet(&block));
}

#[test]
fn partial_snippet_shows_up_to_six_lines() {
    let contents = "a\nb\nme --compact\n1\n2\n3\n4\n5\n6\n";
    assert_eq!(
        partial_me_snippet(contents).as_deref(),
        Some("me --compact\n1\n2\n3\n4\n5")
    );
    assert_eq!(partial_me_snippet("nothing here\n"), None);
}

#[test]
fn prompt_safety_detects_existing_prompt_tools() {
    assert!(looks_complex_prompt(Shell::Zsh, "eval \"$(starship init zsh)\"\n"));
    assert!(looks_complex_prompt(Shell::Bash, "PS1='demo'\n"));
    assert!(!looks_complex_prompt(Shell::Zsh, "alias ll='ls -la'\n"));
    assert!(looks_complex_prompt(Shell::Fish, "function fish_prompt\nend\n"));
    assert!(looks_complex_prompt(Shell::Nushell, "$env.PROMPT_INDICATOR = '> '\n"));
}

#[test]
fn scan_detects_other_shell_from_signature() {
    let files = vec![(
        "/tmp/dir/.bashrc".to_string(),
        Some("# >>> me install >>>\n# me-managed: shell=bash login=full interactive=none version=v0.3.2\nme\n# <<< me install <<<\n".to_string()),
    )];

    let integrations = scan_paths(&files);

    assert_eq!(integrations.len(), 1);
    assert_eq!(integrations[0].shell, Some(Shell::Bash));
    assert_eq!(integrations[0].full_blocks, 1);
}

#[test]
fn scan_infers_shell_from_known_path_when_signature_is_missing() {
    let files = vec![(
        "/tmp/dir/.zshrc".to_string(),
        Some("# >>> me install >>>\nme --compact\n# <<< me install <<<\n".to_string()),
    )];

    let integrations = scan_paths(&files);

    assert_eq!(integrations.len(), 1);
    assert_eq!(integrations[0].shell, Some(Shell::Zsh));
}

#[test]
fn scan_skips_missing_and_repeated_files() {
    let contents = "# >>> me install >>>\nme\n# <<< me install <<<\n".to_string();
    let files = vec![
        ("/tmp/dir/.zshrc".to_string(), Some(contents.clone())),
        ("/tmp/dir/./.zshrc".to_string(), Some(contents.clone())),
        ("/tmp/dir/.bashrc".to_string(), None),
        ("/tmp/dir/.profile".to_string(), Some("export A=1\n".to_string())),
    ];
    let integrations = scan_paths(&files);
    assert_eq!(integrations.len(), 1);
    assert_eq!(integrations[0].path, "/tmp/dir/.zshrc");
}

#[test]
fn other_shell_integrations_are_those_of_a_known_different_shell() {
    let files = vec![
        (
            "/h/.bashrc".to_string(),
            Some("# >>> me install >>>\n# me-managed: shell=bash login=full interactive=none version=v0.4.0\nme\n# <<< me install <<<\n".to_string()),
        ),
        (
            "/h/.zshrc".to_string(),
            Some("# >>> me install >>>\nme\n# <<< me install <<<\n".to_string()),
        ),
        ("/h/custom".to_string(), Some("me --compact\n".to_string())),
    ];
    let found = scan_paths(&files);
    assert_eq!(found.len(), 3);
    assert_eq!(found[2].shell, None);
    let others = existing_for_other_shells(&found, Shell::Zsh);
    assert_eq!(others.len(), 1);
    assert_eq!(others[0].path, "/h/.bashrc");
}

#[test]
fn signature_names_the_shell() {
    assert_eq!(
        detect_shell_from_contents("  # me-managed: shell=nu login=none\n"),
        Some(Shell::Nushell)
    );
    assert_eq!(detect_shell_from_contents("# me-managed: shell=tcsh\n"), None);
    assert_eq!(infer_shell_from_path("/home/a/.bash_profile"), Some(Shell::Bash));
    assert_eq!(infer_shell_from_path("/home/a/.xinitrc"), None);
}

#[test]
fn rendered_block_has_markers_signature_and_commands() {
    let block = render_block(Shell::Zsh, LoginMode::Full, InteractiveMode::Compact);
    assert_eq!(
        block,
        "# >>> me install >>>\n# me-managed: shell=zsh login=full interactive=compact version=v0.4.0\nme\nme --compact\n# <<< me install <<<\n"
    );
    assert_eq!(find_first_full_block(&block), Some((0, block.chars().count())));
    assert_eq!(prompt_lines(Shell::Nushell).len(), 1);
}

#[test]
fn answers_map_to_modes() {
    assert_eq!(parse_login_choice("").unwrap(), LoginMode::Full);
    assert_eq!(parse_login_choice(" 2 \n").unwrap(), LoginMode::Compact);
    assert_eq!(parse_login_choice("none").unwrap(), LoginMode::Off);
    assert_eq!(
        parse_login_choice("maybe\n").unwrap_err().text(),
        "unknown login mode: maybe"
    );
    assert_eq!(parse_interactive_choice("\n").unwrap(), InteractiveMode::Compact);
    assert_eq!(parse_interactive_choice("prompt").unwrap(), InteractiveMode::Prompt);
    assert_eq!(
        parse_interactive_choice("x").unwrap_err().text(),
        "unknown interactive mode: x"
    );
    assert_eq!(parse_cross_shell_choice("").unwrap(), CrossShellChoice::Keep);
    assert_eq!(parse_cross_shell_choice("2").unwrap(), CrossShellChoice::Remove);
    assert_eq!(parse_cross_shell_choice("3").unwrap(), CrossShellChoice::Abort);
    assert_eq!(parse_cross_shell_choice("9").unwrap_err().text(), "unknown choice: 9");
    assert!(confirm_answer("yes\n"));
    assert!(!confirm_answer("Yes"));
}

#[test]
fn shell_comes_from_argument_or_environment() {
    assert_eq!(choose_shell(Some(Shell::Fish), Some("/bin/zsh")).unwrap(), Shell::Fish);
    assert_eq!(choose_shell(None, Some("/usr/bin/nu")).unwrap(), Shell::Nushell);
    assert_eq!(
        choose_shell(None, Some("/bin/tcsh")).unwrap_err().text(),
        "could not detect shell; pass --shell <zsh|bash|fish|nushell>"
    );
}

#[test]
fn unsafe_prompt_falls_back_to_compact() {
    let target = TargetFile {
        shell: Shell::Bash,
        path: "/h/.bashrc".to_string(),
        login: false,
        interactive: true,
    };
    assert_eq!(
        effective_modes(&target, LoginMode::Full, InteractiveMode::Prompt, true),
        (LoginMode::Off, InteractiveMode::Compact)
    );
    assert_eq!(
        effective_modes(&target, LoginMode::Full, InteractiveMode::Prompt, false),
        (LoginMode::Off, InteractiveMode::Prompt)
    );
    let plan = plan_target(&target, LoginMode::Full, InteractiveMode::Compact, false).unwrap();
    assert_eq!(plan.block, render_block(Shell::Bash, LoginMode::Off, InteractiveMode::Compact));
    assert!(plan_target(&target, LoginMode::Full, InteractiveMode::Off, false).is_none());
}

#[test]
fn install_messages() {
    assert_eq!(
        install_report(BlockChange::Added, "~/.zshrc", Shell::Zsh),
        "me install: installed ~/.zshrc (zsh)"
    );
    assert_eq!(display_path("/home/a/.zshrc", Some("/home/a")), "~/.zshrc");
    assert_eq!(display_path("/etc/zshrc", Some("/home/a")), "/etc/zshrc");
    let target = TargetFile {
        shell: Shell::Zsh,
        path: "/home/a/.zshrc".to_string(),
        login: true,
        interactive: true,
    };
    let plan = plan_target(&target, LoginMode::Full, InteractiveMode::Compact, false).unwrap();
    let entries: Vec<SummaryEntry> = summary_entries(&plan, "~/.zshrc");
    assert_eq!(entries.len(), 2);
    let lines = install_summary(Shell::Zsh, &entries);
    assert_eq!(
        lines,
        vec![
            "".to_string(),
            "Installed me shell integration for zsh".to_string(),
            "- login: full (~/.zshrc)".to_string(),
            "- interactive: compact (~/.zshrc)".to_string(),
            "".to_string(),
            "Restart or reopen your shell to start using it.".to_string(),
        ]
    );
    assert_eq!(
        uninstall_summary(&vec![2, 0, 1]),
        vec![
            "Removed 3 managed block(s).".to_string(),
            "Removed me shell integration from 2 file(s).".to_string(),
            "Restart or reopen your shell to finish uninstalling.".to_string(),
        ]
    );
}

#[test]
fn uninstall_undoes_install_up_to_the_separating_newlines() {
    let block = render_block(Shell::Zsh, LoginMode::Full, InteractiveMode::Compact);
    for (file, expected) in [
        ("", ""),
        ("export A=1\n", "export A=1\n\n"),
        ("export A=1", "export A=1\n\n"),
    ] {
        let (installed, change) = upsert_block(file, &block);
        assert_eq!(change, BlockChange::Added);
        let (removed, count) = remove_full_blocks(&installed);
        assert_eq!(removed, expected);
        assert_eq!(count, 1);
    }
}

#[test]
fn install_into_a_plain_file_appends_exactly_one_block() {
    let block = render_block(Shell::Bash, LoginMode::Compact, InteractiveMode::Prompt);
    for file in ["", "export A=1\n", "alias ll='ls -l'"] {
        let (once, change) = upsert_block(file, &block);
        assert_eq!(change, BlockChange::Added);
        assert!(once.starts_with(file));
        assert!(once.ends_with(&block));
        assert_eq!(once.matches(START_MARKER).count(), 1);
        assert_eq!(upsert_block(&once, &block), (once.clone(), BlockChange::Unchanged));
    }
}
