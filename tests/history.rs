use rustgpt::{ChatHistory, FunctionCall, Message, Messages, file_message_text};

#[test]
fn set_system_message_twice_keeps_one() {
    let mut h = <Messages as ChatHistory>::new();
    h.add_user_message("hi");
    h.set_system_message("first");
    h.set_system_message("second");
    let sys = h.get_system_messages();
    assert_eq!(sys.len(), 1);
    assert_eq!(sys[0].content, "second");
    assert_eq!(h.0[0].role, "system");
    assert_eq!(h.0[0].content, "second");
    assert_eq!(h.0.len(), 2);
    assert_eq!(h.0[1].content, "hi");
}

#[test]
fn set_empty_system_message_still_pins() {
    let mut h = <Messages as ChatHistory>::new();
    h.add_user_message("a");
    h.push(Message::new("system", "stray"));
    h.set_system_message("");
    let sys = h.get_system_messages();
    assert_eq!(sys.len(), 1);
    assert_eq!(sys[0].content, "");
    assert_eq!(h.0.len(), 2);
    assert_eq!(h.0[0].role, "system");
    assert_eq!(h.0[1].content, "a");
}

#[test]
fn render_skips_system_entries() {
    let mut h = <Messages as ChatHistory>::new();
    h.set_system_message("be brief");
    h.add_user_message("hi");
    h.add_message("assistant", "hello");
    let text = h.render();
    assert_eq!(text, "user:hi\nassistant:hello\n");
    assert_eq!(text.lines().count(), 2);
}

#[test]
fn render_function_call() {
    let mut m = Message::new("assistant", "");
    m.function_call = Some(FunctionCall::parse("powershell".to_string(), "{\"command\":\"ls\"}".to_string()));
    assert_eq!(m.render(), "assistant:powershell(command:ls)\n");
    m.function_call = Some(FunctionCall::parse("powershell".to_string(), "not json".to_string()));
    assert_eq!(m.render(), "assistant:powershell(not json)\n");
}

#[test]
fn clear_and_get_system_messages() {
    let mut h = <Messages as ChatHistory>::from(Message::new("system", "s1"));
    h.add_user_message("u");
    h.push(Message::new("system", "s2"));
    assert_eq!(h.get_system_messages().len(), 2);
    h.clear_system_messages();
    assert!(h.get_system_messages().is_empty());
    assert_eq!(h.0.len(), 1);
    assert_eq!(h.0[0].content, "u");
}

#[test]
fn last_and_powershell_message() {
    let mut h = <Messages as ChatHistory>::new();
    assert!(h.last().is_none());
    h.add_user_message("run it");
    h.add_powershell_message("out\nerr");
    let last = h.last().expect("an entry");
    assert_eq!(last.role, "function");
    assert_eq!(last.content, "out\nerr");
    assert_eq!(h.render(), "user:run it\nfunction:out\nerr\n");
}

#[test]
fn file_text_prefixes_name() {
    assert_eq!(file_message_text("notes.txt", "a\nb"), "notes.txt:\na\nb");
    assert_eq!(file_message_text("", ""), ":\n");
}

#[test]
fn command_to_run_from_last_entry() {
    let mut h = <Messages as ChatHistory>::new();
    assert_eq!(h.command_to_run(), Ok(None));
    h.add_user_message("list files");
    assert_eq!(h.command_to_run(), Ok(None));
    let mut reply = Message::new("assistant", "");
    reply.function_call = Some(FunctionCall::parse("powershell".to_string(), "{\"command\":\"ls\"}".to_string()));
    h.push(reply);
    assert_eq!(h.command_to_run(), Ok(Some("ls".to_string())));
    let mut other = Message::new("assistant", "");
    other.function_call = Some(FunctionCall::parse("powershell".to_string(), "{\"path\":\"x\"}".to_string()));
    h.push(other);
    assert_eq!(h.command_to_run(), Ok(None));
    let mut broken = Message::new("assistant", "");
    broken.function_call = Some(FunctionCall::parse("powershell".to_string(), "{\"command\":".to_string()));
    h.push(broken);
    assert_eq!(h.command_to_run(), Err(rustgpt::ArgumentError::Unparsable));
}
