//! The bridge between a native worker and the Python thread that serves it.

use vstd::prelude::*;
use vstd::string::StringExecFns;

verus! {

/// A message that may leave the thread it was made on. Only types that say so
/// may: a value that holds a Python object does not.
pub trait WorkerPayload: Send + 'static {

}

/// The end of the bridge that is gone.
#[derive(Clone, Copy, Debug, PartialEq, Eq, Structural)]
pub enum BridgeClosed {
    /// Nobody takes actions any more.
    ActionReceiver,
    /// The action was dropped without a reply.
    ReplySender,
}

impl BridgeClosed {
    /// The words that describe the closed bridge.
    pub open spec fn words(self) -> Seq<char> {
        match self {
            BridgeClosed::ActionReceiver => "Python action receiver closed"@,
            BridgeClosed::ReplySender => "Python action reply sender closed"@,
        }
    }

    /// The words that describe the closed bridge.
    pub fn message(&self) -> (text: String)
        ensures
            text@ == self.words(),
    {
        match self {
            BridgeClosed::ActionReceiver => String::from_str("Python action receiver closed"),
            BridgeClosed::ReplySender => String::from_str("Python action reply sender closed"),
        }
    }
}

/// An action on its way to the Python thread, with the means to answer it.
pub struct ActionRequest<A, R> {
    pub action: A,
    pub reply: R,
}

impl<A, R> ActionRequest<A, R> {
    /// Takes the request apart.
    pub fn into_parts(self) -> (parts: (A, R))
        ensures
            parts.0 == self.action,
            parts.1 == self.reply,
    {
        (self.action, self.reply)
    }
}

/// Keeps the first of the errors that a handler met.
pub fn store_handler_error(slot: &mut Option<usize>, error: usize)
    ensures
        *final(slot) == (match *old(slot) {
            Some(first) => Some(first),
            None => Some(error),
        }),
{
    if slot.is_none() {
        *slot = Some(error);
    }
}

/// Each way in which a bridge is closed has its own words.
pub proof fn law_words_of_bridge_closed()
    ensures
        BridgeClosed::ActionReceiver.words() == "Python action receiver closed"@,
        BridgeClosed::ReplySender.words() == "Python action reply sender closed"@,
{
}

} // verus!
