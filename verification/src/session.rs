//! The conversation kept between a discovery query and its refinements.
use vstd::prelude::*;

use crate::intent::QueryIntent;

verus! {

/// A message of the assistant's API, carried through as it came.
#[verifier::external_type_specification]
#[verifier::external_body]
pub struct ExJsonValue(serde_json::Value);

/// The most message turns a session keeps.
pub const MAX_SESSION_MESSAGES: usize = 40;

/// One discovery conversation: its messages, the query that opened it and
/// the intent of that query.
pub struct SessionHistory {
    pub messages: Vec<serde_json::Value>,
    pub initial_query: String,
    pub query_intent: QueryIntent,
}

/// The messages kept when a session is bounded: all of them while there are
/// at most `MAX_SESSION_MESSAGES`; else the first (the original query) and
/// the latest `MAX_SESSION_MESSAGES - 1`.
pub open spec fn bounded_messages<T>(m: Seq<T>) -> Seq<T> {
    if m.len() <= MAX_SESSION_MESSAGES {
        m
    } else {
        m.subrange(0, 1) + m.subrange(m.len() - (MAX_SESSION_MESSAGES - 1), m.len() as int)
    }
}

impl Default for SessionHistory {
    fn default() -> (r: Self)
        ensures
            r.messages@.len() == 0,
            r.initial_query@ == Seq::<char>::empty(),
            r.query_intent == QueryIntent::FindPapers,
    {
        SessionHistory { messages: Vec::new(), initial_query: String::new(), query_intent: QueryIntent::FindPapers }
    }
}

impl SessionHistory {
    /// Whether the session holds no message.
    pub fn is_empty(&self) -> (r: bool)
        ensures
            r == (self.messages@.len() == 0),
    {
        self.messages.len() == 0
    }

    /// Drop the oldest turns after the first until at most
    /// `MAX_SESSION_MESSAGES` remain.
    pub fn truncate_to_limit(&mut self)
        ensures
            final(self).messages@ == bounded_messages(old(self).messages@),
            final(self).initial_query == old(self).initial_query,
            final(self).query_intent == old(self).query_intent,
    {
        let n = self.messages.len();
        if n <= MAX_SESSION_MESSAGES {
            return;
        }
        let overage = n - MAX_SESSION_MESSAGES;
        let ghost orig = self.messages@;
        let mut k: usize = 0;
        while k < overage
            invariant
                n == orig.len(),
                n > MAX_SESSION_MESSAGES,
                overage == n - MAX_SESSION_MESSAGES,
                0 <= k <= overage,
                self.messages@ =~= orig.subrange(0, 1) + orig.subrange(1 + k, n as int),
                self.initial_query == old(self).initial_query,
                self.query_intent == old(self).query_intent,
            decreases overage - k,
        {
            self.messages.remove(1);
            k += 1;
        }
    }
}

/// Bounding a session keeps its first message and its latest ones, leaves
/// at most `MAX_SESSION_MESSAGES`, and a second bounding changes nothing.
pub proof fn law_bounded_messages<T>(m: Seq<T>)
    ensures
        bounded_messages(m).len() <= MAX_SESSION_MESSAGES,
        m.len() > 0 ==> bounded_messages(m)[0] == m[0],
        m.len() > 0 ==> bounded_messages(m).last() == m.last(),
        bounded_messages(bounded_messages(m)) == bounded_messages(m),
        m.len() <= MAX_SESSION_MESSAGES ==> bounded_messages(m) == m,
{
}

} // verus!
