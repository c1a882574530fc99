//! The decisions of the daemon.
//!
//! The daemon waits for the compositor to say that the outputs have changed,
//! looks at what is connected then, and brings the best profile to bear.
//! Waiting, looking and sending are for whoever holds the connection; what
//! is decided in between is decided here, by a [`DaemonState`] that is told
//! of each event in turn:
//!
//! * a new snapshot that equals the last one that was acted on is a repeated
//!   notification, and is dropped;
//! * for any other snapshot the selector is asked. Without a profile that can
//!   be used nothing is done, and the last snapshot stays, so that a later
//!   change is still seen as one;
//! * with a profile its plan is handed out, and once it has been carried out
//!   the new snapshot becomes the last one. A plan that failed on the way
//!   leaves the last snapshot as it was.

use vstd::prelude::*;
use vstd::string::*;
use crate::cfg::{Cfgs, DesiredOutputView};
use crate::laws::lemma_candidate_can_be_planned;
use crate::outputs::{OutputView, Outputs};
use crate::plan::{action_views, plan, ActionView, OutputAction, PlanErrorView};
use crate::select::selects;

verus! {

/// The mathematical value of a [`DaemonState`].
pub struct DaemonView {
    /// The snapshot for which a profile was last brought to bear, or, before
    /// that has happened, the one that the daemon started with.
    pub last: Seq<OutputView>,
    /// The snapshot whose plan has been handed out and not been answered yet.
    pub pending: Option<Seq<OutputView>>,
}

/// What the daemon remembers between two events.
#[derive(Debug)]
pub struct DaemonState {
    last: Outputs,
    pending: Option<Outputs>,
}

impl View for DaemonState {
    type V = DaemonView;

    closed spec fn view(&self) -> DaemonView {
        DaemonView {
            last: self.last@,
            pending: match self.pending {
                Some(snapshot) => Some(snapshot@),
                None => None,
            },
        }
    }
}

/// What is to be done about a new snapshot.
#[derive(Debug, PartialEq, Eq)]
pub enum Step {
    /// Nothing: the snapshot equals the last one.
    Unchanged,
    /// Nothing: no profile can be used with what is connected.
    NoProfile,
    /// Carry out `actions`, the plan of `profile`, and report how it went.
    Apply { profile: String, actions: Vec<OutputAction> },
}

/// The mathematical value of a [`Step`].
pub enum StepView {
    Unchanged,
    NoProfile,
    Apply { profile: Seq<char>, actions: Seq<ActionView> },
}

impl View for Step {
    type V = StepView;

    open spec fn view(&self) -> StepView {
        match self {
            Step::Unchanged => StepView::Unchanged,
            Step::NoProfile => StepView::NoProfile,
            Step::Apply { profile, actions } => StepView::Apply {
                profile: profile@,
                actions: action_views(actions@),
            },
        }
    }
}

impl DaemonView {
    /// Whether `step` is what is to be done about `snapshot`.
    pub open spec fn calls_for(
        self,
        store: Map<Seq<char>, Seq<DesiredOutputView>>,
        snapshot: Seq<OutputView>,
        step: StepView,
    ) -> bool {
        if snapshot == self.last {
            step is Unchanged
        } else {
            match step {
                StepView::Unchanged => false,
                StepView::NoProfile => selects(store, snapshot, None),
                StepView::Apply { profile, actions } => selects(store, snapshot, Some(profile))
                    && plan(snapshot, store[profile]) == Ok::<Seq<ActionView>, PlanErrorView>(actions),
            }
        }
    }

    /// What is remembered after `step` was handed out for `snapshot`.
    pub open spec fn noting(self, snapshot: Seq<OutputView>, step: StepView) -> DaemonView {
        DaemonView {
            last: self.last,
            pending: if step is Apply {
                Some(snapshot)
            } else {
                None
            },
        }
    }

    /// What is remembered after the plan that was handed out has been carried
    /// out, with or without success.
    pub open spec fn settled(self, success: bool) -> DaemonView {
        DaemonView {
            last: match self.pending {
                Some(snapshot) if success => snapshot,
                _ => self.last,
            },
            pending: None,
        }
    }
}

impl DaemonState {
    /// The state of a daemon that starts while `initial` is connected.
    pub fn new(initial: Outputs) -> (state: Self)
        ensures
            state@ == (DaemonView { last: initial@, pending: None }),
    {
        Self { last: initial, pending: None }
    }

    /// The snapshot that new ones are held against.
    pub fn last(&self) -> (r: &Outputs)
        ensures
            r@ == self@.last,
    {
        &self.last
    }

    /// Decides what to do now that `snapshot` is connected.
    pub fn on_change(&mut self, store: &Cfgs, snapshot: Outputs) -> (step: Step)
        ensures
            old(self)@.calls_for(store@, snapshot@, step@),
            final(self)@ == old(self)@.noting(snapshot@, step@),
    {
        self.pending = None;
        if snapshot == self.last {
            return Step::Unchanged;
        }
        let profile = match store.select(&snapshot) {
            Some(profile) => profile,
            None => {
                return Step::NoProfile;
            },
        };
        let entries = match store.find(profile.as_str()) {
            Some(entries) => entries,
            None => unreached(),
        };
        proof {
            lemma_candidate_can_be_planned(snapshot@, store@[profile@]);
        }
        let actions = match snapshot.set_models(entries.as_slice()) {
            Ok(actions) => actions,
            Err(_) => unreached(),
        };
        self.pending = Some(snapshot);
        Step::Apply { profile, actions }
    }

    /// Takes note of how the plan that was handed out has fared. After a
    /// success the snapshot that it was made for is the one that new ones are
    /// held against.
    pub fn on_applied(&mut self, success: bool)
        ensures
            final(self)@ == old(self)@.settled(success),
    {
        let pending = self.pending.take();
        match pending {
            Some(snapshot) => {
                if success {
                    self.last = snapshot;
                }
            },
            None => {},
        }
    }
}

} // verus!
