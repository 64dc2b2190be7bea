//! The binding from invoking messages to the bot's replies, which makes a
//! reply follow edits and deletions of the message that invoked it.
use vstd::prelude::*;
use std::collections::HashMap;

verus! {

broadcast use vstd::std_specs::hash::group_hash_axioms;

/// What to do after an invoking message was edited.
#[derive(Debug, Clone, Copy, PartialEq, Eq, Structural)]
pub enum EditAction {
    /// Run the command again and edit this reply in place.
    EditResponse(u64),
    /// Run the command and send a new reply.
    SendNew,
    /// Do nothing.
    Nothing,
}

/// The action for an edit of `invoking`, where `recognized` tells whether
/// the new text invokes a registered command. A stale reply to text that no
/// longer invokes a command is left as it is.
pub open spec fn edit_action(h: Map<u64, u64>, invoking: u64, recognized: bool) -> EditAction {
    if !recognized {
        EditAction::Nothing
    } else if h.contains_key(invoking) {
        EditAction::EditResponse(h[invoking])
    } else {
        EditAction::SendNew
    }
}

/// The bindings after a reply `response` was sent for `invoking`: an
/// invoking message keeps the first reply bound to it.
pub open spec fn after_reply(h: Map<u64, u64>, invoking: u64, response: u64) -> Map<u64, u64> {
    if h.contains_key(invoking) {
        h
    } else {
        h.insert(invoking, response)
    }
}

/// The bindings after `invoking` was deleted.
pub open spec fn after_delete(h: Map<u64, u64>, invoking: u64) -> Map<u64, u64> {
    h.remove(invoking)
}

/// The reply to delete when `invoking` is deleted, if it has one.
pub open spec fn reply_to_delete(h: Map<u64, u64>, invoking: u64) -> Option<u64> {
    if h.contains_key(invoking) {
        Some(h[invoking])
    } else {
        None
    }
}

/// Which reply belongs to which invoking message; an invoking message has
/// one reply at most. Held in memory only, with no eviction.
pub struct History {
    map: HashMap<u64, u64>,
}

impl View for History {
    type V = Map<u64, u64>;

    closed spec fn view(&self) -> Map<u64, u64> {
        self.map@
    }
}

impl History {
    /// An empty history: no message is tracked.
    pub fn new() -> (r: History)
        ensures
            r@ == Map::<u64, u64>::empty(),
    {
        History { map: HashMap::new() }
    }

    /// The number of tracked messages. Nothing is evicted: a binding goes
    /// only when its invoking message is deleted.
    pub fn bound_count(&self) -> (r: usize)
        ensures
            r == self@.len(),
    {
        self.map.len()
    }

    /// The reply bound to `invoking`, if any.
    pub fn response_for(&self, invoking: u64) -> (r: Option<u64>)
        ensures
            r == reply_to_delete(self@, invoking),
    {
        match self.map.get(&invoking) {
            Some(v) => Some(*v),
            None => None,
        }
    }

    /// Records that `response` was sent as the reply to `invoking`.
    pub fn record_reply(&mut self, invoking: u64, response: u64)
        ensures
            final(self)@ == after_reply(old(self)@, invoking, response),
    {
        if !self.map.contains_key(&invoking) {
            self.map.insert(invoking, response);
        }
    }

    /// Decides what an edit of `invoking` leads to; the bindings stay as
    /// they are.
    pub fn on_edit(&self, invoking: u64, recognized: bool) -> (r: EditAction)
        ensures
            r == edit_action(self@, invoking, recognized),
    {
        if !recognized {
            EditAction::Nothing
        } else {
            match self.map.get(&invoking) {
                Some(v) => EditAction::EditResponse(*v),
                None => EditAction::SendNew,
            }
        }
    }

    /// Forgets `invoking` and returns the reply that is to be deleted with
    /// it; an untracked message changes nothing.
    pub fn on_delete(&mut self, invoking: u64) -> (r: Option<u64>)
        ensures
            r == reply_to_delete(old(self)@, invoking),
            final(self)@ == after_delete(old(self)@, invoking),
            r is None ==> final(self)@ == old(self)@,
    {
        let r = self.map.remove(&invoking);
        proof {
            if r is None {
                assert(self@ =~= old(self)@);
            }
        }
        r
    }
}

/// Editing a tracked message, any number of times, never sends a new reply:
/// every edit that reruns the command edits the reply recorded at the first
/// send, and an edit leaves the bindings unchanged.
pub proof fn lemma_edits_keep_reply(
    h: Map<u64, u64>,
    invoking: u64,
    response: u64,
    first_recognized: bool,
    second_recognized: bool,
)
    requires
        !h.contains_key(invoking),
    ensures
        ({
            let t = after_reply(h, invoking, response);
            &&& edit_action(t, invoking, first_recognized) != EditAction::SendNew
            &&& edit_action(t, invoking, second_recognized) != EditAction::SendNew
            &&& first_recognized ==> edit_action(t, invoking, first_recognized)
                == EditAction::EditResponse(response)
            &&& second_recognized ==> edit_action(t, invoking, second_recognized)
                == EditAction::EditResponse(response)
            &&& reply_to_delete(t, invoking) == Some(response)
        }),
{
}

/// Deleting a tracked message deletes its one reply and forgets it;
/// deleting an untracked message deletes nothing and changes nothing.
pub proof fn lemma_delete_cascade(h: Map<u64, u64>, invoking: u64)
    ensures
        h.contains_key(invoking) ==> reply_to_delete(h, invoking) == Some(h[invoking])
            && !after_delete(h, invoking).contains_key(invoking)
            && reply_to_delete(after_delete(h, invoking), invoking) is None,
        !h.contains_key(invoking) ==> reply_to_delete(h, invoking) is None && after_delete(
            h,
            invoking,
        ) == h,
{
    if !h.contains_key(invoking) {
        assert(h.remove(invoking) =~= h);
    }
}

} // verus!
