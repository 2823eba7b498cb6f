use rustgpt::{OutputReader, ReadAction, Settings, command_output, powershell_functions};

#[test]
fn reader_gives_up_after_idle_attempts() {
    let mut r = OutputReader::new();
    for _ in 0..100 {
        assert_eq!(r.on_read(b""), ReadAction::SleepThenRead);
    }
    assert_eq!(r.on_read(b""), ReadAction::Stop);
    assert!(r.gave_up());
    assert!(r.is_stopped());
    assert!(r.output().is_empty());
    assert_eq!(r.on_read(b"late"), ReadAction::Stop);
    assert!(r.output().is_empty());
}

#[test]
fn reader_drains_after_first_bytes() {
    let mut r = OutputReader::new();
    assert_eq!(r.on_read(b""), ReadAction::SleepThenRead);
    assert_eq!(r.on_read(b"ab"), ReadAction::ReadAgain);
    assert_eq!(r.on_read(b"cd"), ReadAction::ReadAgain);
    assert_eq!(r.on_read(b""), ReadAction::Stop);
    assert!(!r.gave_up());
    assert_eq!(r.output(), &b"abcd".to_vec());
}

#[test]
fn reader_stops_on_error() {
    let mut r = OutputReader::new();
    assert_eq!(r.on_read(b"x"), ReadAction::ReadAgain);
    assert_eq!(r.on_error(), ReadAction::Stop);
    assert!(r.is_stopped());
    assert!(!r.gave_up());
    assert_eq!(r.output(), &b"x".to_vec());
}

#[test]
fn command_output_joins_streams() {
    assert_eq!(command_output("out", "err"), "out\nerr");
    assert_eq!(command_output("", ""), "\n");
}

#[test]
fn settings_create_and_default() {
    let s = Settings::create("h.json", "c.json", "m");
    assert_eq!(s.history_file(), "h.json");
    assert_eq!(s.config_file(), "c.json");
    assert_eq!(s.model(), "m");
    let d = Settings::default();
    assert_eq!(d.model(), "gpt-3.5-turbo");
    assert_eq!(d.history_file(), "rustgpt/conversation.json");
    assert_eq!(d.config_file(), "rustgpt/config.json");
}

#[test]
fn offered_functions() {
    let f = powershell_functions();
    assert_eq!(f.len(), 2);
    assert_eq!(f[0].name, "powershell");
    assert_eq!(f[0].parameters.required, vec!["command".to_string()]);
    assert_eq!(f[0].parameters.properties[0].0, "command");
    assert!(f[0].parameters.properties[0].1.allowed_values.is_empty());
    assert_eq!(f[1].name, "theme");
    assert_eq!(f[1].parameters.properties[0].1.allowed_values.len(), 2);
    assert_eq!(
        f[1].parameters.properties[0].1.allowed_values[0],
        "& \"C:\\Windows\\Resources\\Themes\\themeA.theme\""
    );
}
