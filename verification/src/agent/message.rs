use vstd::prelude::*;
use vstd::slice::slice_subrange;
use crate::agent::types::AgentId;

verus! {

/// A message from one agent to another.
#[derive(Debug, Clone)]
pub struct AgentMessage {
    pub from: AgentId,
    pub to: AgentId,
    pub text: String,
    /// When the message was written, in milliseconds since the Unix epoch.
    pub timestamp: i64,
}

/// The current time from `chrono::Utc::now`, in milliseconds since the Unix
/// epoch; nothing is promised of the value.
#[verifier::external_body]
pub(crate) fn now_millis() -> i64 {
    chrono::Utc::now().timestamp_millis()
}

impl AgentMessage {
    /// A message stamped with the current time.
    pub fn new(from: AgentId, to: AgentId, text: &str) -> (m: AgentMessage)
        ensures
            m.from == from,
            m.to == to,
            m.text@ == text@,
    {
        AgentMessage { from, to, text: String::from_str(text), timestamp: now_millis() }
    }
}

/// The log of all messages, oldest first.
#[derive(Debug)]
pub struct MessageLog {
    messages: Vec<AgentMessage>,
}

/// The last `min(n, len)` elements of `s`.
pub open spec fn last_n<T>(s: Seq<T>, n: int) -> Seq<T> {
    if n >= s.len() {
        s
    } else {
        s.subrange(s.len() - n, s.len() as int)
    }
}

impl MessageLog {
    pub closed spec fn view(&self) -> Seq<AgentMessage> {
        self.messages@
    }

    pub fn new() -> (l: MessageLog)
        ensures
            l.view() == Seq::<AgentMessage>::empty(),
    {
        MessageLog { messages: Vec::new() }
    }

    /// Appends a message.
    pub fn push(&mut self, msg: AgentMessage)
        ensures
            final(self).view() == old(self).view().push(msg),
    {
        self.messages.push(msg);
    }

    /// All messages, oldest first.
    pub fn messages(&self) -> (m: &[AgentMessage])
        ensures
            m@ == self.view(),
    {
        self.messages.as_slice()
    }

    /// The `n` most recent messages, oldest first (all of them when fewer).
    pub fn recent(&self, n: usize) -> (m: &[AgentMessage])
        ensures
            m@ == last_n(self.view(), n as int),
    {
        let len = self.messages.len();
        let start = if n >= len { 0 } else { len - n };
        let r = slice_subrange(self.messages.as_slice(), start, len);
        assert(r@ =~= last_n(self.view(), n as int));
        r
    }

    pub fn count(&self) -> (c: usize)
        ensures
            c == self.view().len(),
    {
        self.messages.len()
    }
}

} // verus!
