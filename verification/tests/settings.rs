use todo_cli::settings::{Mode, Settings};

#[test]
fn the_shell_is_the_mode_unless_the_server_is_named() {
    assert_eq!(Settings::new(None).mode, Mode::Shell);
    assert_eq!(Settings::new(Some("shell")).mode, Mode::Shell);
    assert_eq!(Settings::new(Some("server")).mode, Mode::Server);
    assert_eq!(Settings::new(Some("")).mode, Mode::Shell);
    assert_eq!(Settings::new(Some("servers")).mode, Mode::Shell);
    assert_eq!(Settings::new(Some(" server")).mode, Mode::Shell);
}

#[test]
fn the_name_is_read_in_any_case() {
    assert_eq!(Settings::new(Some("SERVER")).mode, Mode::Server);
    assert_eq!(Settings::new(Some("Server")).mode, Mode::Server);
    assert_eq!(Settings::new(Some("sErVeR")).mode, Mode::Server);
    assert_eq!(Settings::new(Some("SHELL")).mode, Mode::Shell);
}

#[test]
fn a_name_in_lower_case_names_its_mode() {
    assert_eq!(Mode::from_name("server"), Mode::Server);
    assert_eq!(Mode::from_name("SERVER"), Mode::Shell);
    assert_eq!(Mode::from_name("anything"), Mode::Shell);
}

#[test]
fn modes_are_written_in_lower_case() {
    assert_eq!(Mode::Shell.to_string(), "shell");
    assert_eq!(Mode::Server.to_string(), "server");
    assert_eq!(Mode::from_name(&Mode::Server.to_string()), Mode::Server);
    assert_eq!(Mode::from_name(&Mode::Shell.to_string()), Mode::Shell);
}
