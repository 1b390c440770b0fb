use vstd::prelude::*;
use crate::graph::is_step;
use crate::state::State;
use crate::status::{InputStatus, OutputStatus};

verus! {

/// What the host of a flow does next.
#[derive(Debug, Clone, Copy, PartialEq, Eq, Structural)]
pub enum Turn {
    /// Show the current step, which may be a new one.
    Show,
    /// Present the prompt and wait for the user's answer.
    Ask,
    /// The flow is complete: collect what was entered, from the current step.
    Submit,
}

/// The step that is current after a status that reports `state` as the step
/// to go to, for a host that was at `current`: a status that reports no
/// change, or no step, leaves the host where it is.
pub open spec fn moved(current: usize, state_changed: bool, state: Option<usize>) -> usize {
    match state {
        Some(next) if state_changed => next,
        _ => current,
    }
}

/// A host that is at a step, and goes where statuses send it that name
/// steps only, stays at a step.
pub proof fn moved_stays_on_steps(
    nodes: Seq<State>,
    current: usize,
    state_changed: bool,
    state: Option<usize>,
)
    requires
        is_step(nodes, current as int),
        state matches Some(s) ==> is_step(nodes, s as int),
    ensures
        is_step(nodes, moved(current, state_changed, state) as int),
{
}

/// The place of a host in its flow: exactly one step is current at any time.
#[derive(Debug, Clone, Copy, PartialEq, Eq, Structural)]
pub struct Session {
    pub current: usize,
}

impl Session {
    /// A host that starts at `root`.
    pub fn new(root: usize) -> (session: Session)
        ensures
            session.current == root,
    {
        Session { current: root }
    }

    /// What follows from showing the current step. A step that sends the
    /// host elsewhere becomes the past: the new current step is shown at
    /// once. A step that reports the end of the flow without sending the
    /// host on is submitted. In every other case the user is asked.
    pub fn after_output(&mut self, status: &OutputStatus) -> (turn: Turn)
        ensures
            final(self).current == moved(old(self).current, status.state_changed, status.state),
            turn == if status.state_changed && status.state is Some {
                Turn::Show
            } else if status.state_changed && status.submit {
                Turn::Submit
            } else {
                Turn::Ask
            },
    {
        if status.state_changed {
            match status.state {
                Some(next) => {
                    self.current = next;
                    return Turn::Show;
                },
                None => {},
            }
            if status.submit {
                return Turn::Submit;
            }
        }
        Turn::Ask
    }

    /// What follows from an answer or from going back. The host goes where
    /// the status sends it. A status that reports a change and the end of the
    /// flow is submitted, from the step the host has gone to. In every other
    /// case the current step is shown.
    pub fn after_input(&mut self, status: &InputStatus) -> (turn: Turn)
        ensures
            final(self).current == moved(old(self).current, status.state_changed, status.state),
            turn == if status.state_changed && status.submit {
                Turn::Submit
            } else {
                Turn::Show
            },
    {
        if status.state_changed {
            match status.state {
                Some(next) => {
                    self.current = next;
                },
                None => {},
            }
            if status.submit {
                return Turn::Submit;
            }
        }
        Turn::Show
    }
}

} // verus!
