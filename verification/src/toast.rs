//! Toast notifications waiting to be shown.

use vstd::prelude::*;

verus! {

/// How long a toast is shown when no time is given, in milliseconds.
pub const DEFAULT_TOAST_MILLIS: u32 = 2500;

/// A toast: its text and how long it is shown, in milliseconds.
#[derive(Clone, Debug)]
pub struct ToastOption {
    pub text: String,
    pub show_time: u32,
}

/// The toasts waiting to be shown. The most recently made toast is shown first.
pub struct ToastQueue {
    items: Vec<ToastOption>,
}

impl View for ToastQueue {
    type V = Seq<ToastOption>;

    closed spec fn view(&self) -> Seq<ToastOption> {
        self.items@
    }
}

/// Taking the next toast from the waiting ones: the last one made, if any.
pub open spec fn pop_model(q: Seq<ToastOption>) -> (Seq<ToastOption>, Option<ToastOption>) {
    if q.len() == 0 {
        (q, None)
    } else {
        (q.drop_last(), Some(q.last()))
    }
}

impl ToastQueue {
    /// An empty queue.
    pub fn new() -> (r: Self)
        ensures
            r@ == Seq::<ToastOption>::empty(),
    {
        ToastQueue { items: Vec::new() }
    }

    /// The number of waiting toasts.
    pub fn len(&self) -> (r: usize)
        ensures
            r == self@.len(),
    {
        self.items.len()
    }

    /// Takes the toast to show next: the most recently made one.
    pub fn pop(&mut self) -> (r: Option<ToastOption>)
        ensures
            (final(self)@, r) == pop_model(old(self)@),
    {
        self.items.pop()
    }
}

/// Queues a toast with `text`, shown for `show_time` milliseconds, or
/// [`DEFAULT_TOAST_MILLIS`] when none is given.
pub fn make_toast(queue: &mut ToastQueue, text: &str, show_time: Option<u32>)
    ensures
        final(queue)@.len() == old(queue)@.len() + 1,
        final(queue)@.drop_last() == old(queue)@,
        final(queue)@.last().text@ == text@,
        final(queue)@.last().show_time == match show_time {
            Some(t) => t,
            None => DEFAULT_TOAST_MILLIS,
        },
{
    let t = match show_time {
        Some(t) => t,
        None => DEFAULT_TOAST_MILLIS,
    };
    queue.items.push(ToastOption { text: String::from_str(text), show_time: t });
    assert(queue.items@.drop_last() =~= old(queue).items@);
}

/// A toast just made is the next one shown, and taking it leaves the
/// waiting toasts as they were before it was made.
pub proof fn lemma_latest_toast_first(q: Seq<ToastOption>, t: ToastOption)
    ensures
        pop_model(q.push(t)) == (q, Some(t)),
{
    assert(q.push(t).drop_last() =~= q);
}

} // verus!
