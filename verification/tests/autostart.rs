use redlight::autostart::exe_command;

#[test]
fn command_is_quoted_path() {
    assert_eq!(exe_command(r"C:\Program Files\RedLight\RedLight.exe"), "\"C:\\Program Files\\RedLight\\RedLight.exe\"");
    assert_eq!(exe_command(""), "\"\"");
}
