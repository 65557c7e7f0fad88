//! The queue of key events between the keyboard and the session.

use vstd::prelude::*;
use std::collections::VecDeque;

verus! {

/// The key events that have arrived and were not taken yet, oldest first.
/// Each is a key symbol with the text that the key produced, if any.
pub struct LockInput {
    events: VecDeque<(u32, Option<String>)>,
}

impl View for LockInput {
    type V = Seq<(u32, Option<String>)>;

    closed spec fn view(&self) -> Seq<(u32, Option<String>)> {
        self.events@
    }
}

impl LockInput {
    /// A queue without events.
    pub fn new() -> (out: LockInput)
        ensures
            out@ == Seq::<(u32, Option<String>)>::empty(),
    {
        LockInput { events: VecDeque::new() }
    }

    /// Puts an event at the end of the queue.
    pub fn push(&mut self, keysym: u32, utf8: Option<String>)
        ensures
            final(self)@ == old(self)@.push((keysym, utf8)),
    {
        self.events.push_back((keysym, utf8));
    }

    /// Takes the oldest event out of the queue, or returns `None` where
    /// the queue is empty.
    pub fn pop(&mut self) -> (out: Option<(u32, Option<String>)>)
        ensures
            old(self)@.len() == 0 ==> out is None && final(self)@ == old(self)@,
            old(self)@.len() > 0 ==> out == Some(old(self)@[0]) && final(self)@ == old(self)@.skip(1),
    {
        let out = self.events.pop_front();
        assert(old(self)@.len() > 0 ==> self@ =~= old(self)@.skip(1));
        out
    }

    /// Number of events in the queue.
    pub fn len(&self) -> (n: usize)
        ensures
            n == self@.len(),
    {
        self.events.len()
    }
}

} // verus!
