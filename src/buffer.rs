use vstd::prelude::*;
use crate::codec::{decode, decode_spec, lines, Action, Command, ParseCommandError};

verus! {

/// The outgoing-action buffer: actions staged during a round, sent together
/// when the round ends. Reading and writing the transport is left to the
/// caller, which hands lines in and takes lines out.
pub struct Communicator {
    pending_actions: Vec<Action>,
}

impl View for Communicator {
    type V = Seq<Action>;

    /// The staged actions, oldest first.
    closed spec fn view(&self) -> Seq<Action> {
        self.pending_actions@
    }
}

impl Communicator {
    /// An empty buffer.
    pub fn new() -> (r: Communicator)
        ensures
            r@ == Seq::<Action>::empty(),
    {
        Communicator { pending_actions: Vec::new() }
    }

    /// The staged actions, oldest first.
    pub fn pending_actions(&self) -> (r: &Vec<Action>)
        ensures
            r@ == self@,
    {
        &self.pending_actions
    }

    /// Stages an action for the end of the round. Only the cells stage
    /// actions, and only moves, attacks and explosions.
    pub(crate) fn add_action(&mut self, action: Action)
        requires
            action is Move || action is Attack || action is Explode,
        ensures
            final(self)@ == old(self)@.push(action),
    {
        self.pending_actions.push(action);
    }

    /// The line of an action that is sent at once, bypassing the buffer.
    pub fn flush_action(&self, action: &Action) -> (r: String)
        ensures
            r@ == action.line(),
    {
        action.encode()
    }

    /// Ends the round: the staged actions in staging order followed by the
    /// round-end marker, as lines; the buffer is left empty.
    pub(crate) fn end_round(&mut self) -> (r: String)
        ensures
            r@ == lines(old(self)@) + Action::RoundEnd.line(),
            final(self)@ == Seq::<Action>::empty(),
    {
        self.pending_actions.push(Action::RoundEnd);
        let actions = &self.pending_actions;
        let mut out = String::new();
        let mut i: usize = 0;
        while i < actions.len()
            invariant
                i <= actions@.len(),
                out@ == lines(actions@.subrange(0, i as int)),
            decreases actions@.len() - i,
        {
            let line = actions[i].encode();
            out.append(line.as_str());
            assert(actions@.subrange(0, i + 1).drop_last() =~= actions@.subrange(0, i as int));
            i = i + 1;
        }
        assert(actions@.subrange(0, actions@.len() as int) =~= actions@);
        assert(actions@.drop_last() =~= old(self)@);
        self.pending_actions = Vec::new();
        out
    }

    /// Decodes a line read from the engine.
    pub fn read_command(&self, line: &str) -> (r: Result<Command, ParseCommandError>)
        ensures
            r == decode_spec(line@),
    {
        decode(line)
    }
}

} // verus!
