//! The runtime mailbox: the one synchronization point of the application.
//! Producers append commands; a single consumer takes them from the front
//! and executes each to completion before touching the next, so the state
//! store is only ever mutated by one step at a time.

use vstd::prelude::*;
use crate::store::{command_transition, Command, Effect, StateStore};

verus! {

/// The command queue. Commands leave in exactly the order they entered:
/// the queue grows only at the back and shrinks only at the front, with
/// no bound on how many commands may wait.
#[derive(Debug)]
pub struct Mailbox {
    queue: Vec<Command>,
}

impl View for Mailbox {
    type V = Seq<Command>;

    closed spec fn view(&self) -> Seq<Command> {
        self.queue@
    }
}

impl Mailbox {
    /// An empty mailbox.
    pub fn new() -> (r: Mailbox)
        ensures
            r@ == Seq::<Command>::empty(),
    {
        let queue: Vec<Command> = Vec::new();
        proof {
            assert(queue@ =~= Seq::<Command>::empty());
        }
        Mailbox { queue }
    }

    /// How many commands are waiting.
    pub fn len(&self) -> (r: usize)
        ensures
            r == self@.len(),
    {
        self.queue.len()
    }

    /// Accepts a command from any producer, placing it after everything
    /// already enqueued. Never blocks and never refuses: back-pressure is
    /// deliberately unbounded at this scale.
    pub fn enqueue(&mut self, cmd: Command)
        ensures
            final(self)@ == old(self)@.push(cmd),
    {
        self.queue.push(cmd);
    }

    /// Takes the oldest waiting command, or nothing when the mailbox is
    /// empty. Together with `enqueue` this is first in, first out.
    pub fn dequeue(&mut self) -> (r: Option<Command>)
        ensures
            old(self)@.len() == 0 ==> r is None && final(self)@ == old(self)@,
            old(self)@.len() > 0 ==> r == Option::Some(old(self)@[0]) && final(self)@ == old(
                self,
            )@.skip(1),
    {
        if self.queue.len() == 0 {
            Option::None
        } else {
            let cmd = self.queue.remove(0);
            proof {
                assert(old(self)@.remove(0) =~= old(self)@.skip(1));
            }
            Option::Some(cmd)
        }
    }

    /// The consumer's step: takes the oldest command, if any, and executes
    /// it to completion against the store before returning, handing back
    /// whatever work it caused. Commands enqueued later are untouched
    /// until this one is done.
    pub fn run_one(&mut self, store: &mut StateStore) -> (r: Option<Effect>)
        requires
            old(store).wf(),
        ensures
            final(store).wf(),
            old(self)@.len() == 0 ==> final(self)@ == old(self)@ && *final(store) == *old(store)
                && r is None,
            old(self)@.len() > 0 ==> final(self)@ == old(self)@.skip(1) && command_transition(
                *old(store),
                *final(store),
                old(self)@[0],
                r,
            ),
    {
        match self.dequeue() {
            Option::None => Option::None,
            Option::Some(cmd) => store.apply(cmd),
        }
    }
}

} // verus!
