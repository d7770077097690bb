use toaster::clock::Timestamp;
use toaster::session::{
    can_send, AssistantContent, AssistantContentPart, ChatRequestMessage, Message, Role, Session,
    SystemContent, UserContent, UserContentPart, LOCK_TIMEOUT_SECS,
};

fn at(secs: i64, nanos: u32) -> Timestamp {
    Timestamp { secs, nanos }
}

fn msg(text: &str, role: Role, filtered: bool) -> Message {
    Message { text: text.to_string(), role, hidden: false, filtered }
}

fn session_with(messages: Vec<Message>) -> Session {
    Session {
        name: "s".to_string(),
        speaker: None,
        messages,
        endpoint: String::new(),
        lock_until: None,
    }
}

#[test]
fn request_messages_read_back() {
    let m = Message::try_from(ChatRequestMessage::System(SystemContent::Text("be kind".into()))).unwrap();
    assert_eq!(m.text, "be kind");
    assert_eq!(m.role, Role::System);
    assert!(!m.hidden && !m.filtered);

    let m = Message::try_from(ChatRequestMessage::System(SystemContent::Array(vec![
        "a".into(),
        "b".into(),
    ])))
    .unwrap();
    assert_eq!(m.text, "ab");

    let m = Message::try_from(ChatRequestMessage::User(UserContent::Array(vec![
        UserContentPart::Text("look ".into()),
        UserContentPart::NonText,
        UserContentPart::Text("here".into()),
    ])))
    .unwrap();
    assert_eq!(m.text, "look here");
    assert_eq!(m.role, Role::User);

    let m = Message::try_from(ChatRequestMessage::Assistant(Some(AssistantContent::Array(vec![
        AssistantContentPart::Text("no: ".into()),
        AssistantContentPart::Refusal("refused".into()),
    ]))))
    .unwrap();
    assert_eq!(m.text, "no: refused");
    assert_eq!(m.role, Role::Assistant);
}

#[test]
fn request_messages_that_are_refused() {
    let e = Message::try_from(ChatRequestMessage::Assistant(None)).unwrap_err();
    assert_eq!(e, "chat completion is empty");
    let e = Message::try_from(ChatRequestMessage::Unsupported).unwrap_err();
    assert_eq!(e, "unsupported chat completion type");
}

#[test]
fn messages_become_requests_unless_filtered() {
    match msg("hi", Role::User, false).try_into() {
        Ok(ChatRequestMessage::User(UserContent::Text(t))) => assert_eq!(t, "hi"),
        _ => panic!("expected a user text"),
    }
    match msg("sys", Role::System, false).try_into() {
        Ok(ChatRequestMessage::System(SystemContent::Text(t))) => assert_eq!(t, "sys"),
        _ => panic!("expected a system text"),
    }
    match msg("ans", Role::Assistant, false).try_into() {
        Ok(ChatRequestMessage::Assistant(Some(AssistantContent::Text(t)))) => assert_eq!(t, "ans"),
        _ => panic!("expected an assistant text"),
    }
    let e = msg("only for you", Role::User, true).try_into().unwrap_err();
    assert_eq!(e, "This message is for viewing by users only");
}

#[test]
fn message_round_trip() {
    for role in [Role::System, Role::User, Role::Assistant] {
        let back = Message::try_from(msg("same text", role, false).try_into().unwrap()).unwrap();
        assert_eq!(back.text, "same text");
        assert_eq!(back.role, role);
    }
}

#[test]
fn requests_skip_filtered_messages() {
    let s = session_with(vec![
        msg("a", Role::User, false),
        msg("b", Role::Assistant, true),
        msg("c", Role::Assistant, false),
    ]);
    let r = s.request_messages();
    assert_eq!(r.len(), 2);
    assert!(matches!(&r[0], ChatRequestMessage::User(UserContent::Text(t)) if t == "a"));
    assert!(matches!(&r[1], ChatRequestMessage::Assistant(Some(AssistantContent::Text(t))) if t == "c"));
}

#[test]
fn locking_window() {
    let mut s = session_with(vec![]);
    assert!(!s.is_locking_at(at(0, 0)));
    assert!(s.lock_for_inference(at(1, 500)).is_ok());
    assert_eq!(s.lock_until, Some(at(1 + LOCK_TIMEOUT_SECS, 500)));
    assert!(s.is_locking_at(at(1, 500)));
    assert!(s.is_locking_at(at(16, 499)));
    assert!(!s.is_locking_at(at(16, 500)));
    assert!(!s.is_locking_at(at(17, 0)));
    let e = s.lock_for_inference(at(2, 0)).unwrap_err();
    assert_eq!(e, "Session is locked");
    assert_eq!(s.lock_until, Some(at(16, 500)));
    assert!(s.lock_for_inference(at(16, 500)).is_ok());
    assert_eq!(s.lock_until, Some(at(31, 500)));
    s.finish_inference();
    assert_eq!(s.lock_until, None);
    assert!(!s.is_locking_at(at(i64::MIN, 0)));
    assert!(!s.is_locking());
}

#[test]
fn a_lock_from_now_is_held_now() {
    let mut s = session_with(vec![]);
    let now = toaster::clock::utc_now();
    assert!(s.lock_for_inference(now).is_ok());
    assert!(s.is_locking());
}

#[test]
fn streaming_a_reply() {
    let mut s = session_with(vec![]);
    s.lock_for_inference(at(0, 0)).unwrap();
    s.push_user_message("question".to_string());
    s.begin_reply();
    assert_eq!(s.messages.len(), 2);
    assert_eq!(s.messages[1].role, Role::Assistant);
    assert_eq!(s.messages[1].text, "");
    s.apply_stream_chunk(&vec![Some("Hel".to_string()), None, Some("lo".to_string())], at(0, 100));
    s.apply_stream_chunk(&vec![Some("!".to_string())], at(0, 200));
    assert_eq!(s.messages[0].text, "question");
    assert_eq!(s.messages[0].role, Role::User);
    assert_eq!(s.messages[1].text, "Hello!");
    assert_eq!(s.lock_until, Some(at(LOCK_TIMEOUT_SECS, 200)));
    s.finish_inference();
    assert_eq!(s.lock_until, None);
}

#[test]
fn send_needs_a_draft_and_no_lock() {
    assert!(can_send("hi", false));
    assert!(!can_send("", false));
    assert!(!can_send("hi", true));
}

#[test]
fn preview_of_last_message() {
    assert_eq!(session_with(vec![]).preview(), "<无聊天记录>");
    assert_eq!(session_with(vec![msg("x", Role::System, false)]).preview(), "<无聊天记录>");
    assert_eq!(session_with(vec![msg("hello", Role::User, false)]).preview(), "您：hello");
    assert_eq!(
        session_with(vec![msg("q", Role::User, false), msg("answer", Role::Assistant, false)]).preview(),
        "answer"
    );
    let long: String = std::iter::repeat('字').take(200).collect();
    let p = session_with(vec![msg(&long, Role::User, false)]).preview();
    assert_eq!(p.chars().count(), 120);
    assert!(p.starts_with("您："));
    let p = session_with(vec![msg(&long, Role::Assistant, false)]).preview();
    assert_eq!(p.chars().count(), 120);
}

#[test]
fn default_endpoint_is_the_first_listed() {
    let mut s = session_with(vec![]);
    s.fill_default_endpoint(&vec!["alpha".to_string(), "beta".to_string()]);
    assert_eq!(s.endpoint, "alpha");
    s.fill_default_endpoint(&vec!["beta".to_string()]);
    assert_eq!(s.endpoint, "alpha");
    let mut t = session_with(vec![]);
    t.fill_default_endpoint(&vec![]);
    assert_eq!(t.endpoint, "");
}

#[test]
fn new_session_is_named_after_the_time() {
    let s = Session::default();
    assert_eq!(s.name.chars().count(), 12);
    assert!(s.messages.is_empty());
    assert!(s.speaker.is_none());
    assert_eq!(s.endpoint, "");
    assert!(s.lock_until.is_none());
}

#[test]
fn lock_before_the_epoch_or_beyond_the_clock() {
    let mut s = session_with(vec![]);
    s.lock_until = Some(at(-5, 0));
    assert!(!s.is_locking());
    s.lock_until = Some(at(0, 0));
    assert!(!s.is_locking());
    s.lock_until = Some(at(i64::MAX, 0));
    assert!(s.is_locking());
}
