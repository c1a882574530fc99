//! Carrying a plan out.
//!
//! Every action of a plan becomes one command for the compositor. The
//! commands go out one at a time, in the order of the plan, and each is
//! answered before the next is sent. The first command that the compositor
//! refuses ends the run: nothing is sent after it, and nothing that was done
//! before it is taken back.
//!
//! This module does not talk to the compositor. An [`Applicator`] hands out
//! the next command and is told how it fared; whoever holds the connection
//! sends the command in between.

use vstd::prelude::*;
use vstd::string::*;
use crate::plan::{action_views, ActionView, OutputAction};
use crate::text::{decimal, push_decimal};

verus! {

/// The command that carries an action out.
pub open spec fn command_text(action: ActionView) -> Seq<char> {
    match action {
        ActionView::Enable { name, position, resolution, scale } => "output "@ + name
            + " enable position "@ + decimal(position.0) + " "@ + decimal(position.1)
            + " resolution "@ + decimal(resolution.0 as nat) + "x"@ + decimal(resolution.1 as nat)
            + " scale "@ + scale.text_spec(),
        ActionView::Disable { name } => "output "@ + name + " disable"@,
    }
}

impl OutputAction {
    /// The name of the output that the action is about.
    pub fn name(&self) -> (r: &str)
        ensures
            r@ == self@.name(),
    {
        match self {
            OutputAction::Enable { name, .. } => name.as_str(),
            OutputAction::Disable { name } => name.as_str(),
        }
    }

    /// The command that carries the action out.
    pub fn command(&self) -> (out: String)
        ensures
            out@ == command_text(self@),
    {
        let mut out = String::new();
        match self {
            OutputAction::Enable { name, position, resolution, scale } => {
                out.append("output ");
                out.append(name.as_str());
                out.append(" enable position ");
                push_decimal(&mut out, position.0);
                out.append(" ");
                push_decimal(&mut out, position.1);
                out.append(" resolution ");
                push_decimal(&mut out, resolution.0 as u128);
                out.append("x");
                push_decimal(&mut out, resolution.1 as u128);
                out.append(" scale ");
                let scale_text = scale.text();
                out.append(scale_text.as_str());
            },
            OutputAction::Disable { name } => {
                out.append("output ");
                out.append(name.as_str());
                out.append(" disable");
            },
        }
        assert(out@ =~= command_text(self@));
        out
    }
}

/// A command that the compositor refused.
#[derive(Debug, PartialEq, Eq)]
pub struct ApplyError {
    /// The place of the action in the plan.
    pub index: usize,
    /// The output that the action was about.
    pub name: String,
    /// The command that was refused.
    pub command: String,
}

/// How far a run has come.
pub struct Progress {
    /// The plan that is carried out.
    pub actions: Seq<ActionView>,
    /// How many commands the compositor has taken.
    pub done: nat,
    /// Whether the compositor refused the command after those.
    pub failed: bool,
}

impl Progress {
    /// A command is still to be sent.
    pub open spec fn pending(self) -> bool {
        !self.failed && self.done < self.actions.len()
    }

    /// The run before anything was sent.
    pub open spec fn start(actions: Seq<ActionView>) -> Progress {
        Progress { actions, done: 0, failed: false }
    }

    /// The run after the compositor has answered the command that was to be
    /// sent. A run that is over stays as it is.
    pub open spec fn step(self, accepted: bool) -> Progress {
        if !self.pending() {
            self
        } else if accepted {
            Progress { done: self.done + 1, ..self }
        } else {
            Progress { failed: true, ..self }
        }
    }

    /// The run after the compositor has given these answers, one after the
    /// other.
    pub open spec fn after(self, answers: Seq<bool>) -> Progress
        decreases answers.len(),
    {
        if answers.len() == 0 {
            self
        } else {
            self.after(answers.drop_last()).step(answers.last())
        }
    }
}

/// A run that is over stays over: whatever is answered after the last command
/// was accepted, or after one was refused, changes nothing.
pub proof fn lemma_over_is_over(run: Progress, answers: Seq<bool>)
    requires
        !run.pending(),
    ensures
        run.after(answers) == run,
    decreases answers.len(),
{
    if answers.len() > 0 {
        lemma_over_is_over(run, answers.drop_last());
    }
}

/// While the compositor accepts, the commands go out in the order of the
/// plan, one for each action: after `answers.len()` acceptances that many
/// actions are done and the next one is to be sent.
pub proof fn lemma_accepted_in_order(actions: Seq<ActionView>, answers: Seq<bool>)
    requires
        answers.len() <= actions.len(),
        forall|k: int| 0 <= k < answers.len() ==> answers[k],
    ensures
        Progress::start(actions).after(answers) == (Progress {
            actions,
            done: answers.len(),
            failed: false,
        }),
    decreases answers.len(),
{
    if answers.len() > 0 {
        lemma_accepted_in_order(actions, answers.drop_last());
    }
}

/// The first refusal ends the run. Where the compositor accepts the first
/// `k` commands and refuses the next, the run has failed at action `k`,
/// whatever is answered afterwards.
pub proof fn lemma_first_refusal_halts(actions: Seq<ActionView>, answers: Seq<bool>, k: int)
    requires
        0 <= k < answers.len(),
        k < actions.len(),
        !answers[k],
        forall|i: int| 0 <= i < k ==> answers[i],
    ensures
        Progress::start(actions).after(answers) == (Progress {
            actions,
            done: k as nat,
            failed: true,
        }),
    decreases answers.len(),
{
    let earlier = answers.drop_last();
    if k == answers.len() - 1 {
        lemma_accepted_in_order(actions, earlier);
    } else {
        lemma_first_refusal_halts(actions, earlier, k);
    }
}

/// One run through a plan.
#[derive(Debug)]
pub struct Applicator {
    actions: Vec<OutputAction>,
    done: usize,
    failed: bool,
}

impl View for Applicator {
    type V = Progress;

    closed spec fn view(&self) -> Progress {
        Progress { actions: action_views(self.actions@), done: self.done as nat, failed: self.failed }
    }
}

impl Applicator {
    #[verifier::type_invariant]
    spec fn inv(self) -> bool {
        &&& self.done <= self.actions.len()
        &&& self.failed ==> self.done < self.actions.len()
    }

    /// The run of `actions` before anything was sent.
    pub fn new(actions: Vec<OutputAction>) -> (run: Self)
        ensures
            run@ == Progress::start(action_views(actions@)),
    {
        Self { actions, done: 0, failed: false }
    }

    /// The command to send now: that of the first action that has not been
    /// sent, unless the run is over.
    pub fn next_command(&self) -> (r: Option<String>)
        ensures
            r is Some <==> self@.pending(),
            r matches Some(text) ==> text@ == command_text(self@.actions[self@.done as int]),
            self@.done <= self@.actions.len(),
            self@.failed ==> self@.done < self@.actions.len(),
    {
        proof {
            use_type_invariant(self);
        }
        if self.failed || self.done >= self.actions.len() {
            None
        } else {
            Some(self.actions[self.done].command())
        }
    }

    /// Takes note of the compositor's answer to the command that
    /// [`next_command`](Self::next_command) handed out: the run goes on to
    /// the next action if the command was accepted, and is over if it was
    /// refused. Where no command was to be sent, nothing changes.
    pub fn record(&mut self, accepted: bool)
        ensures
            final(self)@ == old(self)@.step(accepted),
    {
        proof {
            use_type_invariant(&*self);
        }
        if !self.failed && self.done < self.actions.len() {
            if accepted {
                self.done = self.done + 1;
            } else {
                self.failed = true;
            }
        }
    }

    /// How the run ended: `None` while a command is still to be sent, `Ok`
    /// once every command was accepted, and otherwise the command that was
    /// refused, with its place in the plan and the output that it was about.
    pub fn outcome(&self) -> (r: Option<Result<(), ApplyError>>)
        ensures
            r is None <==> self@.pending(),
            r matches Some(Ok(_)) ==> !self@.failed && self@.done == self@.actions.len(),
            r matches Some(Err(e)) ==> {
                &&& self@.failed
                &&& e.index == self@.done < self@.actions.len()
                &&& e.name@ == self@.actions[self@.done as int].name()
                &&& e.command@ == command_text(self@.actions[self@.done as int])
            },
    {
        proof {
            use_type_invariant(self);
        }
        if self.failed {
            let action = &self.actions[self.done];
            Some(
                Err(
                    ApplyError {
                        index: self.done,
                        name: action.name().to_owned(),
                        command: action.command(),
                    },
                ),
            )
        } else if self.done < self.actions.len() {
            None
        } else {
            Some(Ok(()))
        }
    }
}

} // verus!
