use toaster::confirm::ConfirmState;
use toaster::navigation::{back_or_index, NavAction};
use toaster::toast::{make_toast, ToastQueue, DEFAULT_TOAST_MILLIS};

#[test]
fn toasts_use_the_default_time() {
    let mut q = ToastQueue::new();
    make_toast(&mut q, "saved", None);
    make_toast(&mut q, "slow", Some(100));
    assert_eq!(q.len(), 2);
    let t = q.pop().unwrap();
    assert_eq!(t.text, "slow");
    assert_eq!(t.show_time, 100);
    let t = q.pop().unwrap();
    assert_eq!(t.text, "saved");
    assert_eq!(t.show_time, DEFAULT_TOAST_MILLIS);
    assert_eq!(DEFAULT_TOAST_MILLIS, 2500);
    assert!(q.pop().is_none());
}

#[test]
fn newest_toast_comes_first() {
    let mut q = ToastQueue::new();
    make_toast(&mut q, "old", Some(1));
    let before = q.len();
    make_toast(&mut q, "new", Some(2));
    assert_eq!(q.pop().unwrap().text, "new");
    assert_eq!(q.len(), before);
}

#[test]
fn confirmation_round() {
    let mut c = ConfirmState::new();
    assert!(!c.is_busy());
    assert_eq!(c.take_answer(), None);
    c.open(vec!["Delete this session?".to_string()]);
    assert!(c.is_busy());
    assert_eq!(c.text, vec!["Delete this session?".to_string()]);
    assert_eq!(c.take_answer(), None);
    c.answer(true);
    assert!(!c.is_busy());
    assert!(c.text.is_empty());
    assert_eq!(c.take_answer(), Some(true));
    assert_eq!(c.take_answer(), None);
    c.open(vec![]);
    c.answer(false);
    assert_eq!(c.take_answer(), Some(false));
    assert!(!c.show && c.text.is_empty() && c.result.is_none());
}

#[test]
fn leaving_a_page_goes_back_or_to_the_index() {
    assert_eq!(back_or_index(true), NavAction::GoBack);
    assert_eq!(back_or_index(false), NavAction::ReplaceWithIndex);
}
