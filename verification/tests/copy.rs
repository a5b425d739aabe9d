use me::interactive::copy::{clipboard_backend, given_target, prompt_choice};

#[test]
fn menu_numbers_pick_targets() {
    assert_eq!(prompt_choice(" 2\n").unwrap(), "host");
    assert_eq!(prompt_choice("0").unwrap(), "user");
    assert_eq!(prompt_choice("4").unwrap_err().text(), "selection out of range");
    assert_eq!(prompt_choice("two").unwrap_err().text(), "selection must be a number");
    assert_eq!(given_target(Some(String::new())), None);
    assert_eq!(given_target(Some("user".into())).as_deref(), Some("user"));
}

#[test]
fn clipboard_programs_per_platform() {
    let b = clipboard_backend("linux", false, true).unwrap();
    assert_eq!(b.program, "xclip");
    assert_eq!(b.args, vec!["-selection".to_string(), "clipboard".to_string()]);
    assert_eq!(clipboard_backend("macos", false, false).unwrap().program, "pbcopy");
    assert_eq!(
        clipboard_backend("windows", true, true).err().unwrap().text(),
        "clipboard is not supported on this platform"
    );
}
