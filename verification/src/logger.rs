//! Append-only message sink for game events.
//!
//! The core pushes human-readable event strings here; how many are shown and
//! how they are rendered is the display layer's business.

use vstd::prelude::*;

verus! {

/// Holds when `new_logs` is `old_logs` with exactly the messages `msgs`
/// appended, in order, compared by their character sequences.
pub open spec fn logs_extended_by(
    old_logs: Seq<String>,
    new_logs: Seq<String>,
    msgs: Seq<Seq<char>>,
) -> bool {
    &&& new_logs.len() == old_logs.len() + msgs.len()
    &&& (forall|i: int| 0 <= i < old_logs.len() ==> new_logs[i] == old_logs[i])
    &&& (forall|i: int| 0 <= i < msgs.len() ==> (#[trigger] new_logs[old_logs.len() + i])@ == msgs[i])
}

/// Two extensions of a log compose.
pub proof fn lemma_logs_extended_compose(
    l0: Seq<String>,
    l1: Seq<String>,
    l2: Seq<String>,
    x: Seq<Seq<char>>,
    y: Seq<Seq<char>>,
)
    requires
        logs_extended_by(l0, l1, x),
        logs_extended_by(l1, l2, y),
    ensures
        logs_extended_by(l0, l2, x + y),
{
    assert forall|i: int| 0 <= i < (x + y).len() implies (#[trigger] l2[l0.len() + i])@ == (x + y)[i] by {
        if i < x.len() {
            assert(l2[l0.len() + i] == l1[l0.len() + i]);
        } else {
            assert(l2[l1.len() + (i - x.len())]@ == y[i - x.len()]);
        }
    }
}

/// Append-only log of event messages.
pub struct Logger {
    pub logs: Vec<String>,
    pub max_displayed_logs: u8,
}

impl Logger {
    /// An empty log.
    pub fn new() -> (r: Logger)
        ensures
            r.logs@ == Seq::<String>::empty(),
            r.max_displayed() == 30,
    {
        Logger { logs: Vec::new(), max_displayed_logs: 30 }
    }

    /// How many of the latest messages the display layer should show.
    pub open spec fn max_displayed(&self) -> u8 {
        self.max_displayed_logs
    }

    /// Appends one message to the log.
    pub fn push_message(&mut self, msg: String)
        ensures
            final(self).logs@ == old(self).logs@.push(msg),
            final(self).max_displayed() == old(self).max_displayed(),
    {
        self.logs.push(msg);
    }

    /// How many of the latest messages to display.
    pub fn max_displayed_logs(&self) -> (r: u8)
        ensures
            r == self.max_displayed(),
    {
        self.max_displayed_logs
    }
}

} // verus!
