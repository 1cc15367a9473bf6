//! The two-stage selection flow: pick an entry, then pick an action.

use vstd::prelude::*;
use crate::model::Choices;

verus! {

/// Which prompt the session is waiting on.
#[derive(Debug, Clone, Copy, PartialEq, Eq, Structural)]
pub enum Stage {
    /// The list of entries is shown.
    ChooseEntry,
    /// The action menu is shown for the entry at this position.
    ChooseAction { entry: usize },
}

/// What the user answered at a prompt.
#[derive(Debug, Clone, Copy, PartialEq, Eq, Structural)]
pub enum Answer {
    Entry(usize),
    Action(Choices),
    Cancelled,
}

/// What the session does next.
#[derive(Debug, Clone, Copy, PartialEq, Eq, Structural)]
pub enum Step {
    /// Show the action menu for the entry at this position.
    AskAction { entry: usize },
    /// Carry out the action on the entry at this position.
    Dispatch { entry: usize, action: Choices },
    /// End the session without acting.
    End,
}

/// Decides the next step from the prompt shown and the answer given. A
/// cancelled prompt, or an answer that does not fit the prompt, ends the
/// session with no action; only an action picked for an entry dispatches.
pub fn next_step(stage: Stage, answer: Answer) -> (r: Step)
    ensures
        answer == Answer::Cancelled ==> r == Step::End,
        r == match (stage, answer) {
            (Stage::ChooseEntry, Answer::Entry(i)) => Step::AskAction { entry: i },
            (Stage::ChooseAction { entry }, Answer::Action(a)) => Step::Dispatch { entry, action: a },
            _ => Step::End,
        },
{
    match (stage, answer) {
        (Stage::ChooseEntry, Answer::Entry(i)) => Step::AskAction { entry: i },
        (Stage::ChooseAction { entry }, Answer::Action(a)) => Step::Dispatch { entry, action: a },
        _ => Step::End,
    }
}

} // verus!
