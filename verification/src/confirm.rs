//! The confirmation dialog: one question at a time, answered yes or no.

use vstd::prelude::*;

verus! {

/// The state of the confirmation dialog: whether it is shown, the
/// paragraphs it shows, and the answer not yet collected.
pub struct ConfirmState {
    pub show: bool,
    pub text: Vec<String>,
    pub result: Option<bool>,
}

/// The dialog's state as values: shown, paragraphs, pending answer.
pub struct ConfirmView {
    pub show: bool,
    pub text: Seq<String>,
    pub result: Option<bool>,
}

impl View for ConfirmState {
    type V = ConfirmView;

    open spec fn view(&self) -> ConfirmView {
        ConfirmView { show: self.show, text: self.text@, result: self.result }
    }
}

/// The dialog at rest: hidden, empty, no answer pending.
pub open spec fn at_rest(s: ConfirmView) -> bool {
    !s.show && s.text.len() == 0 && s.result is None
}

/// The dialog after it is opened with the paragraphs `text`.
pub open spec fn open_model(s: ConfirmView, text: Seq<String>) -> ConfirmView {
    ConfirmView { show: true, text, result: s.result }
}

/// The dialog after the user answers `yes` or no: hidden, emptied, with the
/// answer pending.
pub open spec fn answer_model(s: ConfirmView, yes: bool) -> ConfirmView {
    ConfirmView { show: false, text: Seq::empty(), result: Some(yes) }
}

/// Collecting the pending answer: the dialog without it, and the answer.
pub open spec fn take_model(s: ConfirmView) -> (ConfirmView, Option<bool>) {
    (ConfirmView { show: s.show, text: s.text, result: None }, s.result)
}

impl ConfirmState {
    /// A hidden dialog with no question and no answer.
    pub fn new() -> (r: Self)
        ensures
            at_rest(r@),
    {
        ConfirmState { show: false, text: Vec::new(), result: None }
    }

    /// Whether another question is being asked; a new one waits until it is not.
    pub fn is_busy(&self) -> (r: bool)
        ensures
            r == self.show,
    {
        self.show
    }

    /// Shows the dialog with the paragraphs `text`.
    pub fn open(&mut self, text: Vec<String>)
        requires
            !old(self).show,
        ensures
            final(self)@ == open_model(old(self)@, text@),
            final(self).show,
            final(self).text@ == text@,
            final(self).result == old(self).result,
    {
        self.show = true;
        self.text = text;
    }

    /// The user answers (`yes`, or no: the "no" button, the close button or
    /// a click beside the dialog).
    pub fn answer(&mut self, yes: bool)
        ensures
            final(self)@ == answer_model(old(self)@, yes),
    {
        self.show = false;
        self.text = Vec::new();
        self.result = Some(yes);
    }

    /// Collects the pending answer, if there is one, and clears it; with no
    /// answer yet, nothing changes and the asker keeps waiting.
    pub fn take_answer(&mut self) -> (r: Option<bool>)
        ensures
            (final(self)@, r) == take_model(old(self)@),
    {
        let r = self.result;
        self.result = None;
        r
    }
}

/// Opening the dialog shows it with exactly the paragraphs asked, all of
/// them and in order, and keeps any answer not yet collected.
pub proof fn lemma_open_shows_every_paragraph(s: ConfirmView, text: Seq<String>)
    ensures
        open_model(s, text).show,
        open_model(s, text).text.len() == text.len(),
        forall|i: int| 0 <= i < text.len() ==> #[trigger] open_model(s, text).text[i] == text[i],
        open_model(s, text).result == s.result,
{
}

/// Opening the dialog with a question, answering it and collecting the
/// answer gives back exactly that answer and leaves the dialog at rest; a
/// second collection finds nothing.
pub proof fn lemma_question_answered(s: ConfirmView, text: Seq<String>, yes: bool)
    ensures
        take_model(answer_model(open_model(s, text), yes)).1 == Some(yes),
        at_rest(take_model(answer_model(open_model(s, text), yes)).0),
        take_model(take_model(answer_model(open_model(s, text), yes)).0).1 is None,
{
}

} // verus!
