use toaster::message_text::parse_text;

fn parts(s: &str) -> (String, String) {
    let t = parse_text(s);
    (t.think.to_string(), t.main.to_string())
}

#[test]
fn reasoning_and_answer_are_split() {
    assert_eq!(parts("<think>plan</think>answer"), ("plan".into(), "answer".into()));
    assert_eq!(parts("<think></think>"), ("".into(), "".into()));
    assert_eq!(parts("<think>a</think>b</think>c"), ("a".into(), "b</think>c".into()));
    assert_eq!(parts("<think>思考</think>回答"), ("思考".into(), "回答".into()));
}

#[test]
fn unclosed_reasoning_has_no_answer_yet() {
    assert_eq!(parts("<think>still thinking"), ("still thinking".into(), "".into()));
    assert_eq!(parts("<think><think>x"), ("x".into(), "".into()));
    assert_eq!(parts("<think>"), ("".into(), "".into()));
}

#[test]
fn replies_without_reasoning_are_all_answer() {
    assert_eq!(parts("hello"), ("".into(), "hello".into()));
    assert_eq!(parts(""), ("".into(), "".into()));
    assert_eq!(parts(" <think>a</think>b"), ("".into(), " <think>a</think>b".into()));
}
