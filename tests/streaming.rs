use rustgpt::{
    Assembly, AccumulatorState, ArgumentError, Choice, Delta, FunctionCall, LineKind, LineSplitter,
    OpenAiResponse, ParsedLine, ServerEvent, StreamingFunctionCall, parse_line,
};

fn event(role: Option<&str>, content: Option<&str>, name: Option<&str>, args: Option<&str>) -> ServerEvent {
    ServerEvent {
        role: role.map(|s| s.to_string()),
        content: content.map(|s| s.to_string()),
        function_name: name.map(|s| s.to_string()),
        function_arguments: args.map(|s| s.to_string()),
        finish_reason: None,
    }
}

fn split_all(chunks: &[&[u8]]) -> (Vec<Vec<u8>>, Option<Vec<u8>>) {
    let mut s = LineSplitter::new();
    let mut lines = Vec::new();
    for c in chunks {
        lines.extend(s.append(c));
    }
    let last = s.finish();
    (lines, last)
}

#[test]
fn fragmented_delivery_matches_single_delivery() {
    let whole: &[u8] = b"data: {\"a\":1}\n\ndata: [DONE]\ntail";
    let single = split_all(&[whole]);
    let fragmented = split_all(&[&whole[..3], &whole[3..14], &whole[14..15], &whole[15..20], &whole[20..]]);
    assert_eq!(single, fragmented);
    let bytewise: Vec<&[u8]> = (0..whole.len()).map(|i| &whole[i..i + 1]).collect();
    assert_eq!(single, split_all(&bytewise));
    assert_eq!(
        single.0,
        vec![b"data: {\"a\":1}".to_vec(), Vec::new(), b"data: [DONE]".to_vec()]
    );
}

#[test]
fn splitter_retains_partial_line() {
    let mut s = LineSplitter::new();
    assert!(s.append(b"hel").is_empty());
    assert_eq!(s.append(b"lo\nwor"), vec![b"hello".to_vec()]);
    assert_eq!(s.append(b"ld\n"), vec![b"world".to_vec()]);
    assert_eq!(s.finish(), None);
}

#[test]
fn end_of_stream_flushes_unterminated_line() {
    let mut s = LineSplitter::new();
    assert_eq!(s.append(b"first\nlast"), vec![b"first".to_vec()]);
    assert_eq!(s.finish(), Some(b"last".to_vec()));
    assert_eq!(s.finish(), None);
}

#[test]
fn parse_line_kinds() {
    assert!(matches!(parse_line(b""), LineKind::Skip));
    assert!(matches!(parse_line(b"data: [DONE]"), LineKind::Sentinel));
    assert!(matches!(parse_line(b"[DONE]"), LineKind::Sentinel));
    match parse_line(b"data: {\"x\":1}") {
        LineKind::Payload(p) => assert_eq!(p, b"{\"x\":1}".to_vec()),
        other => panic!("unexpected {:?}", other),
    }
    match parse_line(b"{\"x\":1}") {
        LineKind::Payload(p) => assert_eq!(p, b"{\"x\":1}".to_vec()),
        other => panic!("unexpected {:?}", other),
    }
    match parse_line(b"data: [DONE] ") {
        LineKind::Payload(p) => assert_eq!(p, b"[DONE] ".to_vec()),
        other => panic!("unexpected {:?}", other),
    }
}

#[test]
fn fold_text_events() {
    let mut st = AccumulatorState::new();
    st.fold(&event(Some("assistant"), None, None, None));
    st.fold(&event(None, Some("Hel"), None, None));
    st.fold(&event(None, Some("lo"), None, None));
    let m = st.finalize();
    assert_eq!(m.role, "assistant");
    assert_eq!(m.content, "Hello");
    assert!(m.function_call.is_none());
}

#[test]
fn fold_function_call_events() {
    let mut st = AccumulatorState::new();
    st.fold(&event(None, None, Some("powershell"), None));
    st.fold(&event(None, None, None, Some("{\"comman")));
    st.fold(&event(None, None, None, Some("d\":\"ls\"}")));
    let m = st.finalize();
    let call = m.function_call.expect("a function call");
    assert_eq!(call.name, "powershell");
    assert_eq!(call.raw_arguments, "{\"command\":\"ls\"}");
    assert_eq!(call.arguments, Some(vec![("command".to_string(), "ls".to_string())]));
    assert_eq!(call.get_argument("command"), Ok("ls".to_string()));
    assert_eq!(m.content, "");
}

#[test]
fn zero_events_finalize_to_empty_message() {
    let m = AccumulatorState::new().finalize();
    assert_eq!(m.role, "");
    assert_eq!(m.content, "");
    assert!(m.function_call.is_none());
}

#[test]
fn role_is_overwritten() {
    let mut st = AccumulatorState::new();
    st.fold(&event(Some("assistant"), Some("a"), None, None));
    st.fold(&event(Some("user"), Some("b"), None, None));
    let m = st.finalize();
    assert_eq!(m.role, "user");
    assert_eq!(m.content, "ab");
}

#[test]
fn unparsable_arguments_keep_raw_text() {
    let mut st = AccumulatorState::new();
    st.fold(&event(None, None, Some("powershell"), Some("{\"command\": ")));
    let m = st.finalize();
    let call = m.function_call.expect("a function call");
    assert_eq!(call.arguments, None);
    assert_eq!(call.raw_arguments, "{\"command\": ");
    assert_eq!(call.get_argument("command"), Err(ArgumentError::Unparsable));
}

#[test]
fn missing_argument_is_reported() {
    let call = FunctionCall::parse("powershell".to_string(), "{\"cmd\":\"ls\"}".to_string());
    assert_eq!(call.get_argument("command"), Err(ArgumentError::Missing));
    assert_eq!(call.get_argument("cmd"), Ok("ls".to_string()));
}

#[test]
fn non_string_argument_values_do_not_parse() {
    let call = FunctionCall::parse("f".to_string(), "{\"n\":1}".to_string());
    assert_eq!(call.arguments, None);
    let call = FunctionCall::parse("f".to_string(), "[\"a\"]".to_string());
    assert_eq!(call.arguments, None);
}

#[test]
fn parsed_arguments_are_in_key_order() {
    let call = FunctionCall::parse("f".to_string(), "{\"b\":\"2\",\"a\":\"1\"}".to_string());
    assert_eq!(
        call.arguments,
        Some(vec![("a".to_string(), "1".to_string()), ("b".to_string(), "2".to_string())])
    );
    assert_eq!(call.render(), "f(a:1, b:2)");
}

#[test]
fn finish_with_given_arguments() {
    let mut st = AccumulatorState::new();
    st.fold(&event(Some("assistant"), None, Some("theme"), Some("raw")));
    let m = st.finish_with(Some(vec![("k".to_string(), "v".to_string())]));
    let call = m.function_call.expect("a function call");
    assert_eq!(call.name, "theme");
    assert_eq!(call.raw_arguments, "raw");
    assert_eq!(call.arguments, Some(vec![("k".to_string(), "v".to_string())]));
}

fn assemble(lines: &[&[u8]], decode: impl Fn(&[u8]) -> Option<ServerEvent>) -> (rustgpt::Message, bool) {
    let mut a = Assembly::new();
    for line in lines {
        let parsed = match parse_line(line) {
            LineKind::Skip => ParsedLine::Skip,
            LineKind::Sentinel => ParsedLine::Sentinel,
            LineKind::Payload(p) => match decode(&p) {
                Some(e) => ParsedLine::Event(e),
                None => ParsedLine::Skip,
            },
        };
        a.accept(parsed);
    }
    let finished = a.is_finished();
    (a.into_message(), finished)
}

fn toy_decode(p: &[u8]) -> Option<ServerEvent> {
    let text = std::str::from_utf8(p).ok()?;
    let content = text.strip_prefix("c=")?;
    Some(event(None, Some(content), None, None))
}

#[test]
fn sentinel_ends_assembly() {
    let (m, finished) = assemble(&[b"data: c=ab", b"data: [DONE]", b"data: c=zz"], toy_decode);
    assert!(finished);
    assert_eq!(m.content, "ab");
    let (m, finished) = assemble(&[b"data: c=ab", b"[DONE]"], toy_decode);
    assert!(finished);
    assert_eq!(m.content, "ab");
}

#[test]
fn malformed_line_is_skipped() {
    let with = assemble(&[b"data: c=a", b"data: garbage", b"", b"data: c=b"], toy_decode);
    let without = assemble(&[b"data: c=a", b"data: c=b"], toy_decode);
    assert_eq!(with.0.content, "ab");
    assert_eq!(with.0.content, without.0.content);
    assert_eq!(with.0.role, without.0.role);
    assert!(!with.1);
}

#[test]
fn event_from_first_choice_only() {
    let resp = OpenAiResponse {
        id: "id".to_string(),
        object: "chat.completion.chunk".to_string(),
        created: 1,
        model: "m".to_string(),
        choices: vec![
            Choice {
                message: None,
                delta: Some(Delta {
                    content: Some("hi".to_string()),
                    role: Some("assistant".to_string()),
                    function_call: Some(StreamingFunctionCall { name: Some("f".to_string()), arguments: None }),
                }),
                finish_reason: Some("stop".to_string()),
                index: 0,
            },
            Choice {
                message: None,
                delta: Some(Delta { content: Some("other".to_string()), role: None, function_call: None }),
                finish_reason: None,
                index: 1,
            },
        ],
    };
    let e = ServerEvent::from_response(&resp);
    assert_eq!(e.content.as_deref(), Some("hi"));
    assert_eq!(e.role.as_deref(), Some("assistant"));
    assert_eq!(e.function_name.as_deref(), Some("f"));
    assert_eq!(e.function_arguments, None);
    assert_eq!(e.finish_reason.as_deref(), Some("stop"));
    match ParsedLine::from_decoded(Some(&resp)) {
        ParsedLine::Event(ev) => assert_eq!(ev.content.as_deref(), Some("hi")),
        other => panic!("unexpected {:?}", other),
    }
    assert!(matches!(ParsedLine::from_decoded(None), ParsedLine::Skip));
}

#[test]
fn choice_without_delta_contributes_nothing() {
    let resp = OpenAiResponse {
        id: String::new(),
        object: String::new(),
        created: 0,
        model: String::new(),
        choices: vec![Choice { message: None, delta: None, finish_reason: Some("stop".to_string()), index: 0 }],
    };
    let e = ServerEvent::from_response(&resp);
    assert!(e.role.is_none() && e.content.is_none() && e.function_name.is_none());
    let mut st = AccumulatorState::new();
    st.fold(&e);
    let m = st.finalize();
    assert_eq!(m.content, "");
}
