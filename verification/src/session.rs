//! Chat sessions, their messages, the request messages they are sent as, and
//! the bookkeeping of a running inference (locking, streaming the reply).

use crate::clock::{chrono_last_second, is_before, is_clock_reading, utc_now, DateFields, Timestamp};
use crate::string_util::{now, push_char, time_text};
use vstd::prelude::*;

verus! {

/// Who wrote a message.
#[derive(Clone, Copy, Debug, PartialEq, Eq, Structural)]
pub enum Role {
    System,
    User,
    Assistant,
}

/// One message of a session. A `filtered` message is shown to the user but
/// never sent to the model.
#[derive(Clone, Debug, PartialEq)]
pub struct Message {
    pub text: String,
    pub role: Role,
    pub hidden: bool,
    pub filtered: bool,
}

/// The content of a system request message: one text, or text parts.
#[derive(Clone, Debug)]
pub enum SystemContent {
    Text(String),
    Array(Vec<String>),
}

/// A part of a user request message: a text, or a non-text part (an image,
/// an audio clip or a file).
#[derive(Clone, Debug)]
pub enum UserContentPart {
    Text(String),
    NonText,
}

/// The content of a user request message.
#[derive(Clone, Debug)]
pub enum UserContent {
    Text(String),
    Array(Vec<UserContentPart>),
}

/// A part of an assistant request message: a text or a refusal.
#[derive(Clone, Debug)]
pub enum AssistantContentPart {
    Text(String),
    Refusal(String),
}

/// The content of an assistant request message.
#[derive(Clone, Debug)]
pub enum AssistantContent {
    Text(String),
    Array(Vec<AssistantContentPart>),
}

/// A chat-completion request message as far as a session reads it: its role
/// and content. Every other kind (developer, tool, function) is `Unsupported`.
#[derive(Clone, Debug)]
pub enum ChatRequestMessage {
    System(SystemContent),
    User(UserContent),
    Assistant(Option<AssistantContent>),
    Unsupported,
}

/// The error of an assistant request message without content.
pub open spec fn empty_completion_text() -> Seq<char> {
    "chat completion is empty"@
}

/// The error of a request message of a kind a session does not hold.
pub open spec fn unsupported_type_text() -> Seq<char> {
    "unsupported chat completion type"@
}

/// The error of a filtered message, which is never sent.
pub open spec fn view_only_text() -> Seq<char> {
    "This message is for viewing by users only"@
}

/// The concatenation of the texts `parts`.
pub open spec fn concat_texts(parts: Seq<String>) -> Seq<char>
    decreases parts.len(),
{
    if parts.len() == 0 {
        Seq::empty()
    } else {
        concat_texts(parts.drop_last()) + parts.last()@
    }
}

/// The concatenation of the text parts of a user message; non-text parts add nothing.
pub open spec fn user_parts_text(parts: Seq<UserContentPart>) -> Seq<char>
    decreases parts.len(),
{
    if parts.len() == 0 {
        Seq::empty()
    } else {
        user_parts_text(parts.drop_last()) + match parts.last() {
            UserContentPart::Text(t) => t@,
            UserContentPart::NonText => Seq::empty(),
        }
    }
}

/// The concatenation of the parts of an assistant message, refusals included.
pub open spec fn assistant_parts_text(parts: Seq<AssistantContentPart>) -> Seq<char>
    decreases parts.len(),
{
    if parts.len() == 0 {
        Seq::empty()
    } else {
        assistant_parts_text(parts.drop_last()) + match parts.last() {
            AssistantContentPart::Text(t) => t@,
            AssistantContentPart::Refusal(r) => r@,
        }
    }
}

/// The text and role a request message stands for, or why it stands for none.
pub open spec fn request_text_role(value: ChatRequestMessage) -> Result<(Seq<char>, Role), Seq<char>> {
    match value {
        ChatRequestMessage::System(c) => Ok((
            match c {
                SystemContent::Text(t) => t@,
                SystemContent::Array(a) => concat_texts(a@),
            },
            Role::System,
        )),
        ChatRequestMessage::User(c) => Ok((
            match c {
                UserContent::Text(t) => t@,
                UserContent::Array(a) => user_parts_text(a@),
            },
            Role::User,
        )),
        ChatRequestMessage::Assistant(Some(c)) => Ok((
            match c {
                AssistantContent::Text(t) => t@,
                AssistantContent::Array(a) => assistant_parts_text(a@),
            },
            Role::Assistant,
        )),
        ChatRequestMessage::Assistant(None) => Err(empty_completion_text()),
        ChatRequestMessage::Unsupported => Err(unsupported_type_text()),
    }
}

/// The request message a message is sent as: one text in its role's message
/// kind. A filtered message is not sent.
pub open spec fn message_request(m: Message) -> Result<ChatRequestMessage, Seq<char>> {
    if m.filtered {
        Err(view_only_text())
    } else {
        Ok(match m.role {
            Role::System => ChatRequestMessage::System(SystemContent::Text(m.text)),
            Role::User => ChatRequestMessage::User(UserContent::Text(m.text)),
            Role::Assistant => ChatRequestMessage::Assistant(Some(AssistantContent::Text(m.text))),
        })
    }
}

/// `c` is the request form of `m`: the message kind of `m`'s role holding one
/// text equal to `m`'s.
pub open spec fn is_request_form_of(c: ChatRequestMessage, m: Message) -> bool {
    match m.role {
        Role::System => c matches ChatRequestMessage::System(SystemContent::Text(t)) && t@ == m.text@,
        Role::User => c matches ChatRequestMessage::User(UserContent::Text(t)) && t@ == m.text@,
        Role::Assistant => c matches ChatRequestMessage::Assistant(Some(AssistantContent::Text(t)))
            && t@ == m.text@,
    }
}

fn concat_system_parts(parts: &Vec<String>) -> (r: String)
    ensures
        r@ == concat_texts(parts@),
{
    let mut s = String::new();
    let mut i: usize = 0;
    while i < parts.len()
        invariant
            i <= parts@.len(),
            s@ == concat_texts(parts@.take(i as int)),
        decreases parts@.len() - i,
    {
        assert(parts@.take(i + 1).drop_last() =~= parts@.take(i as int));
        s.append(parts[i].as_str());
        i = i + 1;
    }
    assert(parts@.take(parts@.len() as int) =~= parts@);
    s
}

fn concat_user_parts(parts: &Vec<UserContentPart>) -> (r: String)
    ensures
        r@ == user_parts_text(parts@),
{
    let mut s = String::new();
    let mut i: usize = 0;
    while i < parts.len()
        invariant
            i <= parts@.len(),
            s@ == user_parts_text(parts@.take(i as int)),
        decreases parts@.len() - i,
    {
        assert(parts@.take(i + 1).drop_last() =~= parts@.take(i as int));
        match &parts[i] {
            UserContentPart::Text(t) => {
                s.append(t.as_str());
            },
            UserContentPart::NonText => {
                assert(s@ =~= s@ + Seq::<char>::empty());
            },
        }
        i = i + 1;
    }
    assert(parts@.take(parts@.len() as int) =~= parts@);
    s
}

fn concat_assistant_parts(parts: &Vec<AssistantContentPart>) -> (r: String)
    ensures
        r@ == assistant_parts_text(parts@),
{
    let mut s = String::new();
    let mut i: usize = 0;
    while i < parts.len()
        invariant
            i <= parts@.len(),
            s@ == assistant_parts_text(parts@.take(i as int)),
        decreases parts@.len() - i,
    {
        assert(parts@.take(i + 1).drop_last() =~= parts@.take(i as int));
        match &parts[i] {
            AssistantContentPart::Text(t) => {
                s.append(t.as_str());
            },
            AssistantContentPart::Refusal(r) => {
                s.append(r.as_str());
            },
        }
        i = i + 1;
    }
    assert(parts@.take(parts@.len() as int) =~= parts@);
    s
}

impl Message {
    /// Reads a request message back as a session message: the text of its
    /// content (parts concatenated in order; non-text user parts skipped,
    /// assistant refusals kept) in its role, neither hidden nor filtered. An
    /// assistant message without content, and any kind other than system,
    /// user and assistant, are refused.
    pub fn try_from(value: ChatRequestMessage) -> (r: Result<Message, &'static str>)
        ensures
            match request_text_role(value) {
                Ok((text, role)) => r matches Ok(m) && m.text@ == text && m.role == role && !m.hidden
                    && !m.filtered,
                Err(t) => r matches Err(e) && e@ == t,
            },
    {
        let (text, role) = match value {
            ChatRequestMessage::System(c) => (
                match c {
                    SystemContent::Text(t) => t,
                    SystemContent::Array(a) => concat_system_parts(&a),
                },
                Role::System,
            ),
            ChatRequestMessage::User(c) => (
                match c {
                    UserContent::Text(t) => t,
                    UserContent::Array(a) => concat_user_parts(&a),
                },
                Role::User,
            ),
            ChatRequestMessage::Assistant(Some(c)) => (
                match c {
                    AssistantContent::Text(t) => t,
                    AssistantContent::Array(a) => concat_assistant_parts(&a),
                },
                Role::Assistant,
            ),
            ChatRequestMessage::Assistant(None) => {
                return Err("chat completion is empty");
            },
            ChatRequestMessage::Unsupported => {
                return Err("unsupported chat completion type");
            },
        };
        Ok(Message { text, role, hidden: false, filtered: false })
    }

    /// The request message this message is sent as; a filtered message is
    /// refused.
    pub fn try_into(self) -> (r: Result<ChatRequestMessage, &'static str>)
        ensures
            match message_request(self) {
                Ok(c) => r == Ok::<ChatRequestMessage, &'static str>(c),
                Err(t) => r matches Err(e) && e@ == t,
            },
    {
        if !self.filtered {
            Ok(match self.role {
                Role::System => ChatRequestMessage::System(SystemContent::Text(self.text)),
                Role::User => ChatRequestMessage::User(UserContent::Text(self.text)),
                Role::Assistant => ChatRequestMessage::Assistant(Some(AssistantContent::Text(self.text))),
            })
        } else {
            Err("This message is for viewing by users only")
        }
    }

    /// The request form of this message, for a message that is not filtered.
    fn to_request(&self) -> (r: ChatRequestMessage)
        ensures
            is_request_form_of(r, *self),
    {
        let text = self.text.clone();
        match self.role {
            Role::System => ChatRequestMessage::System(SystemContent::Text(text)),
            Role::User => ChatRequestMessage::User(UserContent::Text(text)),
            Role::Assistant => ChatRequestMessage::Assistant(Some(AssistantContent::Text(text))),
        }
    }
}

/// Converting a message that is not filtered into a request message and back
/// gives its text and role again; a filtered message is refused.
pub proof fn lemma_message_request_round_trip(m: Message)
    ensures
        !m.filtered ==> (message_request(m) matches Ok(c) && request_text_role(c) == Ok::<
            (Seq<char>, Role),
            Seq<char>,
        >((m.text@, m.role)) && is_request_form_of(c, m)),
        m.filtered ==> message_request(m) == Err::<ChatRequestMessage, Seq<char>>(view_only_text()),
{
}

/// How long a session stays locked after the last sign of a running
/// inference, in seconds.
pub const LOCK_TIMEOUT_SECS: i64 = 15;

/// A chat session. While `lock_until` lies after the present instant an
/// inference is writing to it.
#[derive(Clone, Debug, PartialEq)]
pub struct Session {
    pub name: String,
    pub speaker: Option<String>,
    pub messages: Vec<Message>,
    pub endpoint: String,
    pub lock_until: Option<Timestamp>,
}

/// The error of an inference started on a locked session.
pub open spec fn session_locked_text() -> Seq<char> {
    "Session is locked"@
}

/// The instant [`LOCK_TIMEOUT_SECS`] after `now`.
pub open spec fn lock_deadline(now: Timestamp) -> Timestamp {
    Timestamp { secs: (now.secs + LOCK_TIMEOUT_SECS) as i64, nanos: now.nanos }
}

/// The messages of `s` that are sent to the model, in order: those not filtered.
pub open spec fn sendable_messages(s: Seq<Message>) -> Seq<Message>
    decreases s.len(),
{
    if s.len() == 0 {
        Seq::empty()
    } else if s.last().filtered {
        sendable_messages(s.drop_last())
    } else {
        sendable_messages(s.drop_last()).push(s.last())
    }
}

/// The concatenation of the texts among `deltas`; absent ones add nothing.
pub open spec fn concat_deltas(deltas: Seq<Option<String>>) -> Seq<char>
    decreases deltas.len(),
{
    if deltas.len() == 0 {
        Seq::empty()
    } else {
        concat_deltas(deltas.drop_last()) + match deltas.last() {
            Some(t) => t@,
            None => Seq::empty(),
        }
    }
}

/// What the session list shows for a session: its last message, prefixed
/// with `您：` when the user wrote it, or `<无聊天记录>` when there is no
/// message or the last one is a system message; cut to its first 120
/// characters.
pub open spec fn preview_text(messages: Seq<Message>) -> Seq<char> {
    let full = if messages.len() == 0 {
        no_history_text()
    } else {
        let m = messages.last();
        match m.role {
            Role::User => seq!['您', '：'] + m.text@,
            Role::Assistant => m.text@,
            Role::System => no_history_text(),
        }
    };
    if full.len() <= 120 {
        full
    } else {
        full.take(120)
    }
}

/// `<无聊天记录>`, shown for a session without history.
pub open spec fn no_history_text() -> Seq<char> {
    seq!['<', '无', '聊', '天', '记', '录', '>']
}

fn push_text_upto(s: &mut String, t: &str, limit: usize)
    requires
        old(s)@.len() <= limit,
    ensures
        final(s)@ == {
            let full = old(s)@ + t@;
            if full.len() <= limit {
                full
            } else {
                full.take(limit as int)
            }
        },
{
    let n = t.unicode_len();
    let ghost s0 = s@;
    let mut i: usize = 0;
    while i < n && s.unicode_len() < limit
        invariant
            n == t@.len(),
            i <= n,
            s@ == s0 + t@.take(i as int),
            s@.len() <= limit,
            s0.len() <= limit,
        decreases n - i,
    {
        let c = t.get_char(i);
        push_char(s, c);
        assert(t@.take(i + 1) =~= t@.take(i as int).push(c));
        i = i + 1;
    }
    proof {
        let full = s0 + t@;
        if i == n {
            assert(t@.take(n as int) =~= t@);
        } else {
            assert(s@.len() == limit);
            assert(s@ =~= full.take(limit as int));
        }
    }
}

fn push_chars_upto(s: &mut String, cs: &Vec<char>, limit: usize)
    requires
        old(s)@.len() <= limit,
    ensures
        final(s)@ == {
            let full = old(s)@ + cs@;
            if full.len() <= limit {
                full
            } else {
                full.take(limit as int)
            }
        },
{
    let ghost s0 = s@;
    let mut i: usize = 0;
    while i < cs.len() && s.unicode_len() < limit
        invariant
            i <= cs@.len(),
            s@ == s0 + cs@.take(i as int),
            s@.len() <= limit,
            s0.len() <= limit,
        decreases cs@.len() - i,
    {
        push_char(s, cs[i]);
        assert(cs@.take(i + 1) =~= cs@.take(i as int).push(cs@[i as int]));
        i = i + 1;
    }
    proof {
        let full = s0 + cs@;
        if i == cs@.len() {
            assert(cs@.take(cs@.len() as int) =~= cs@);
        } else {
            assert(s@ =~= full.take(limit as int));
        }
    }
}

impl Session {
    /// The session is locked at the instant `now`: its lock lies after `now`.
    pub open spec fn locked_at(&self, now: Timestamp) -> bool {
        self.lock_until matches Some(t) && is_before(now, t)
    }

    /// Whether the session is locked at the instant `now`.
    pub fn is_locking_at(&self, now: Timestamp) -> (r: bool)
        ensures
            r == self.locked_at(now),
    {
        match self.lock_until {
            Some(t) => now.secs < t.secs || (now.secs == t.secs && now.nanos < t.nanos),
            None => false,
        }
    }

    /// Whether the session is locked now, by the UTC clock. The clock's
    /// reading is not known, so what is stated holds of every reading: the
    /// answer is the lock test at some instant the clock can give. So a
    /// session without a lock, or whose lock ends at or before the Unix epoch,
    /// is not locked, and one whose lock ends after every date the clock can
    /// read is.
    pub fn is_locking(&self) -> (r: bool)
        ensures
            exists|now: Timestamp|
                #![trigger self.locked_at(now)]
                is_clock_reading(now) && r == self.locked_at(now),
            self.lock_until is None ==> !r,
            self.lock_until matches Some(t) && t.secs <= 0 && t.nanos == 0 ==> !r,
            self.lock_until matches Some(t) && t.secs > chrono_last_second() ==> r,
    {
        let now = utc_now();
        self.is_locking_at(now)
    }

    /// Starts an inference at the instant `now`: a session locked at `now`
    /// refuses with `Session is locked` and stays as it is; otherwise it is
    /// locked until [`LOCK_TIMEOUT_SECS`] after `now`, with nothing else changed.
    pub fn lock_for_inference(&mut self, now: Timestamp) -> (r: Result<(), &'static str>)
        requires
            now.secs <= i64::MAX - LOCK_TIMEOUT_SECS,
        ensures
            old(self).locked_at(now) ==> (r matches Err(e) && e@ == session_locked_text())
                && *final(self) == *old(self),
            !old(self).locked_at(now) ==> r is Ok && final(self).lock_until == Some(lock_deadline(now))
                && final(self).name == old(self).name && final(self).speaker == old(self).speaker
                && final(self).messages == old(self).messages && final(self).endpoint == old(
                self,
            ).endpoint,
    {
        if self.is_locking_at(now) {
            return Err("Session is locked");
        }
        self.lock_until = Some(Timestamp { secs: now.secs + LOCK_TIMEOUT_SECS, nanos: now.nanos });
        Ok(())
    }

    /// Appends the user's message: a user message with `text`, neither hidden
    /// nor filtered.
    pub fn push_user_message(&mut self, text: String)
        ensures
            final(self).messages@ == old(self).messages@.push(
                Message { text, role: Role::User, hidden: false, filtered: false },
            ),
            final(self).name == old(self).name,
            final(self).speaker == old(self).speaker,
            final(self).endpoint == old(self).endpoint,
            final(self).lock_until == old(self).lock_until,
    {
        self.messages.push(Message { text, role: Role::User, hidden: false, filtered: false });
    }

    /// The request messages an inference sends: every message that is not
    /// filtered, in order, in its request form.
    pub fn request_messages(&self) -> (r: Vec<ChatRequestMessage>)
        ensures
            r@.len() == sendable_messages(self.messages@).len(),
            forall|i: int|
                0 <= i < r@.len() ==> is_request_form_of(
                    #[trigger] r@[i],
                    sendable_messages(self.messages@)[i],
                ),
            r@.len() == self.messages@.filter(|m: Message| !m.filtered).len(),
            forall|i: int|
                0 <= i < r@.len() ==> is_request_form_of(
                    #[trigger] r@[i],
                    self.messages@.filter(|m: Message| !m.filtered)[i],
                ),
    {
        proof {
            lemma_sendable_is_unfiltered(self.messages@);
        }
        let mut r: Vec<ChatRequestMessage> = Vec::new();
        let mut i: usize = 0;
        while i < self.messages.len()
            invariant
                i <= self.messages@.len(),
                r@.len() == sendable_messages(self.messages@.take(i as int)).len(),
                forall|j: int|
                    0 <= j < r@.len() ==> is_request_form_of(
                        #[trigger] r@[j],
                        sendable_messages(self.messages@.take(i as int))[j],
                    ),
            decreases self.messages@.len() - i,
        {
            assert(self.messages@.take(i + 1).drop_last() =~= self.messages@.take(i as int));
            let m = &self.messages[i];
            if !m.filtered {
                let c = m.to_request();
                r.push(c);
            }
            i = i + 1;
        }
        assert(self.messages@.take(self.messages@.len() as int) =~= self.messages@);
        r
    }

    /// Opens the assistant's reply: an empty assistant message, neither hidden
    /// nor filtered, that the stream then fills.
    pub fn begin_reply(&mut self)
        ensures
            final(self).messages@.len() == old(self).messages@.len() + 1,
            forall|i: int| 0 <= i < old(self).messages@.len() ==> final(self).messages@[i] == old(self).messages@[i],
            final(self).messages@.last().text@ == Seq::<char>::empty(),
            final(self).messages@.last().role == Role::Assistant,
            !final(self).messages@.last().hidden,
            !final(self).messages@.last().filtered,
            final(self).name == old(self).name,
            final(self).speaker == old(self).speaker,
            final(self).endpoint == old(self).endpoint,
            final(self).lock_until == old(self).lock_until,
    {
        self.messages.push(Message { text: String::new(), role: Role::Assistant, hidden: false, filtered: false });
    }

    /// Takes one chunk of the streamed reply at time `now`: the texts among
    /// `deltas` are appended, in order, to the last message, and the lock is
    /// renewed until [`LOCK_TIMEOUT_SECS`] after `now`. The other messages
    /// and fields stay as they are.
    pub fn apply_stream_chunk(&mut self, deltas: &Vec<Option<String>>, now: Timestamp)
        requires
            old(self).messages@.len() > 0,
            now.secs <= i64::MAX - LOCK_TIMEOUT_SECS,
        ensures
            final(self).messages@.len() == old(self).messages@.len(),
            forall|i: int| 0 <= i < old(self).messages@.len() - 1 ==> final(self).messages@[i] == old(self).messages@[i],
            final(self).messages@.last().text@ == old(self).messages@.last().text@ + concat_deltas(deltas@),
            final(self).messages@.last().role == old(self).messages@.last().role,
            final(self).messages@.last().hidden == old(self).messages@.last().hidden,
            final(self).messages@.last().filtered == old(self).messages@.last().filtered,
            final(self).lock_until == Some(lock_deadline(now)),
            final(self).name == old(self).name,
            final(self).speaker == old(self).speaker,
            final(self).endpoint == old(self).endpoint,
    {
        let mut appended = String::new();
        let mut i: usize = 0;
        while i < deltas.len()
            invariant
                i <= deltas@.len(),
                appended@ == concat_deltas(deltas@.take(i as int)),
            decreases deltas@.len() - i,
        {
            assert(deltas@.take(i + 1).drop_last() =~= deltas@.take(i as int));
            match &deltas[i] {
                Some(t) => {
                    appended.append(t.as_str());
                },
                None => {
                    assert(appended@ =~= appended@ + Seq::<char>::empty());
                },
            }
            i = i + 1;
        }
        assert(deltas@.take(deltas@.len() as int) =~= deltas@);
        let last = self.messages.len() - 1;
        let mut m = self.messages.remove(last);
        m.text.append(appended.as_str());
        self.messages.push(m);
        assert(self.messages@.drop_last() =~= old(self).messages@.drop_last());
        self.lock_until = Some(Timestamp { secs: now.secs + LOCK_TIMEOUT_SECS, nanos: now.nanos });
    }

    /// Ends an inference, however the stream ended: the session is unlocked.
    pub fn finish_inference(&mut self)
        ensures
            final(self).lock_until is None,
            final(self).name == old(self).name,
            final(self).speaker == old(self).speaker,
            final(self).messages == old(self).messages,
            final(self).endpoint == old(self).endpoint,
    {
        self.lock_until = None;
    }

    /// Gives a session without an endpoint the first of `endpoints` (the
    /// store lists names in ascending order), or the empty name when there is
    /// none; a session with an endpoint keeps it.
    pub fn fill_default_endpoint(&mut self, endpoints: &Vec<String>)
        ensures
            old(self).endpoint@.len() > 0 ==> final(self).endpoint == old(self).endpoint,
            old(self).endpoint@.len() == 0 && endpoints@.len() > 0 ==> final(self).endpoint@
                == endpoints@[0]@,
            old(self).endpoint@.len() == 0 && endpoints@.len() == 0 ==> final(self).endpoint@
                == Seq::<char>::empty(),
            final(self).name == old(self).name,
            final(self).speaker == old(self).speaker,
            final(self).messages == old(self).messages,
            final(self).lock_until == old(self).lock_until,
    {
        if self.endpoint.as_str().is_empty() {
            if endpoints.len() > 0 {
                self.endpoint = endpoints[0].clone();
            } else {
                self.endpoint = String::new();
            }
        }
    }

    /// The line the session list shows under a session's name.
    pub fn preview(&self) -> (r: String)
        ensures
            r@ == preview_text(self.messages@),
    {
        let mut s = String::new();
        let n = self.messages.len();
        if n == 0 {
            let none_text = vec!['<', '无', '聊', '天', '记', '录', '>'];
            push_chars_upto(&mut s, &none_text, 120);
            assert(none_text@ =~= no_history_text());
            assert(s@ =~= preview_text(self.messages@));
            return s;
        }
        let m = &self.messages[n - 1];
        match m.role {
            Role::User => {
                push_char(&mut s, '您');
                push_char(&mut s, '：');
                push_text_upto(&mut s, m.text.as_str(), 120);
                assert(s@ =~= preview_text(self.messages@));
            },
            Role::Assistant => {
                push_text_upto(&mut s, m.text.as_str(), 120);
                assert(s@ =~= preview_text(self.messages@));
            },
            Role::System => {
                let none_text = vec!['<', '无', '聊', '天', '记', '录', '>'];
                push_chars_upto(&mut s, &none_text, 120);
                assert(none_text@ =~= no_history_text());
                assert(s@ =~= preview_text(self.messages@));
            },
        }
        s
    }
}

/// Whether the chat's send button is enabled: there is a draft, and the
/// session is not locked by a running inference.
pub fn can_send(draft: &str, locked: bool) -> (r: bool)
    ensures
        r == (draft@.len() > 0 && !locked),
{
    !(draft.is_empty() || locked)
}

impl Default for Session {
    /// A new, empty session named after the current local time
    /// (`YYMMDD-hh:mm`), without speaker, endpoint or lock.
    fn default() -> (r: Self)
        ensures
            exists|t: DateFields| t.in_calendar_range() && r.name@ == time_text(t),
            r.speaker is None,
            r.messages@.len() == 0,
            r.endpoint@ == Seq::<char>::empty(),
            r.lock_until is None,
    {
        Session { name: now(), speaker: None, messages: Vec::new(), endpoint: String::new(), lock_until: None }
    }
}

/// Once an inference has taken the lock at the instant `now`, the session
/// is locked at every instant from `now` until just before
/// [`LOCK_TIMEOUT_SECS`] after it, so a second inference started in that
/// window is refused; from then on it is no longer locked.
pub proof fn lemma_lock_window(after: Session, now: Timestamp, later: Timestamp)
    requires
        now.secs <= i64::MAX - LOCK_TIMEOUT_SECS,
        after.lock_until == Some(lock_deadline(now)),
    ensures
        !is_before(later, now) && is_before(later, lock_deadline(now)) ==> after.locked_at(later),
        !is_before(later, lock_deadline(now)) ==> !after.locked_at(later),
{
}

/// After an inference ends, its session is locked at no time at all.
pub proof fn lemma_finished_is_unlocked(s: Session, t: Timestamp)
    requires
        s.lock_until is None,
    ensures
        !s.locked_at(t),
{
}

/// The messages an inference sends are exactly the session's messages that
/// are not filtered, in order, whatever their role (system messages
/// included).
pub proof fn lemma_sendable_is_unfiltered(s: Seq<Message>)
    ensures
        sendable_messages(s) == s.filter(|m: Message| !m.filtered),
    decreases s.len(),
{
    reveal(Seq::filter);
    if s.len() > 0 {
        lemma_sendable_is_unfiltered(s.drop_last());
    }
}

/// A request message in the request form of a message reads back as that
/// message's text and role: a system message is sent as a system message,
/// a user message as a user message, an assistant message as an assistant
/// message, each with its text unchanged.
pub proof fn lemma_request_form_reads_back(c: ChatRequestMessage, m: Message)
    requires
        is_request_form_of(c, m),
    ensures
        request_text_role(c) == Ok::<(Seq<char>, Role), Seq<char>>((m.text@, m.role)),
{
}

/// A message added after the others is sent after them when it is not
/// filtered, whatever its role, and a filtered one adds nothing; a session
/// without messages sends none.
pub proof fn lemma_sendable_push(s: Seq<Message>, m: Message)
    ensures
        !m.filtered ==> sendable_messages(s.push(m)) == sendable_messages(s).push(m),
        m.filtered ==> sendable_messages(s.push(m)) == sendable_messages(s),
        sendable_messages(Seq::empty()) == Seq::<Message>::empty(),
{
    assert(s.push(m).drop_last() =~= s);
}

/// A streamed delta's text is appended as it is: a present text adds exactly
/// its characters after those before it, an absent one adds nothing, and no
/// delta adds nothing.
pub proof fn lemma_concat_deltas_push(d: Seq<Option<String>>, t: String)
    ensures
        concat_deltas(d.push(Some(t))) == concat_deltas(d) + t@,
        concat_deltas(d.push(None)) == concat_deltas(d),
        concat_deltas(Seq::empty()) == Seq::<char>::empty(),
{
    assert(d.push(Some(t)).drop_last() =~= d);
    assert(d.push(None::<String>).drop_last() =~= d);
    assert(concat_deltas(d) + Seq::<char>::empty() =~= concat_deltas(d));
}

/// Streaming deltas in two chunks gives the same text as streaming them in
/// one: the texts of the first chunk followed by those of the second.
pub proof fn lemma_concat_deltas_split(a: Seq<Option<String>>, b: Seq<Option<String>>)
    ensures
        concat_deltas(a + b) == concat_deltas(a) + concat_deltas(b),
    decreases b.len(),
{
    if b.len() == 0 {
        assert(a + b =~= a);
        assert(concat_deltas(a) + concat_deltas(b) =~= concat_deltas(a));
    } else {
        lemma_concat_deltas_split(a, b.drop_last());
        assert((a + b).drop_last() =~= a + b.drop_last());
        assert((a + b).last() == b.last());
        let tail = match b.last() {
            Some(t) => t@,
            None => Seq::<char>::empty(),
        };
        assert(concat_deltas(a) + concat_deltas(b.drop_last()) + tail =~= concat_deltas(a) + (concat_deltas(
            b.drop_last(),
        ) + tail));
    }
}

/// The preview keeps the start of what it shows and cuts only its end: for
/// an assistant's last message, the first characters of its text, and for
/// a user's, `您：` and then the first characters of its text, as many as fit
/// in 120 characters; `<无聊天记录>` when there is no message or the last is
/// a system message.
pub proof fn lemma_preview_keeps_the_start(messages: Seq<Message>)
    ensures
        messages.len() > 0 && messages.last().role == Role::Assistant ==> {
            let t = messages.last().text@;
            &&& preview_text(messages).is_prefix_of(t)
            &&& preview_text(messages).len() == if t.len() <= 120 { t.len() } else { 120 }
        },
        messages.len() > 0 && messages.last().role == Role::User ==> {
            let t = messages.last().text@;
            &&& preview_text(messages).len() == if t.len() + 2 <= 120 { t.len() + 2 } else { 120 }
            &&& preview_text(messages)[0] == '您'
            &&& preview_text(messages)[1] == '：'
            &&& forall|i: int| 0 <= i < preview_text(messages).len() - 2 ==> #[trigger] preview_text(messages)[i + 2] == t[i]
        },
        messages.len() == 0 || messages.last().role == Role::System ==> preview_text(messages)
            == seq!['<', '无', '聊', '天', '记', '录', '>'],
{
    if messages.len() > 0 && messages.last().role == Role::User {
        let t = messages.last().text@;
        let full = seq!['您', '：'] + t;
        assert forall|i: int| 0 <= i < preview_text(messages).len() - 2 implies #[trigger] preview_text(messages)[i + 2] == t[i] by {
            assert(full[i + 2] == t[i]);
        }
    }
}

/// The line shown for a session never holds more than 120 characters.
pub proof fn lemma_preview_is_short(messages: Seq<Message>)
    ensures
        preview_text(messages).len() <= 120,
{
    assert(no_history_text().len() == 7);
}

} // verus!
