//! Requests made once, by hand.
//!
//! Two requests can be made outright: to use a stored profile by its name,
//! and to switch on the outputs with given names. Both end in a plan for an
//! [`Applicator`](crate::apply::Applicator), or in an error that says why
//! there is none. Nothing has been sent when an error comes back.

use vstd::prelude::*;
use vstd::string::*;
use crate::apply::ApplyError;
use crate::cfg::{Cfgs, DesiredOutputView};
use crate::outputs::{OutputView, Outputs};
use crate::plan::{
    action_views, names_of, plan, plan_manual, ActionView, OutputAction, PlanError, PlanErrorView,
};

verus! {

/// Why a request came to nothing.
#[derive(Debug, PartialEq, Eq)]
pub enum CoreError {
    /// A profile names an output that is not connected.
    UnresolvedIdentity(String),
    /// None of the names of a manual request is the name of a connected output.
    NoMatchingOutputs,
    /// No profile of the store can be used with what is connected.
    NoEligibleProfile,
    /// The store has no profile of this name.
    ProfileNotFound(String),
    /// The compositor refused a command; what was sent before it stays done.
    Transport(ApplyError),
    /// The stream of notifications from the compositor broke off.
    TransportFatal,
}

/// The mathematical value of a [`CoreError`].
pub enum CoreErrorView {
    UnresolvedIdentity(Seq<char>),
    NoMatchingOutputs,
    NoEligibleProfile,
    ProfileNotFound(Seq<char>),
    Transport { index: nat, name: Seq<char>, command: Seq<char> },
    TransportFatal,
}

impl View for CoreError {
    type V = CoreErrorView;

    open spec fn view(&self) -> CoreErrorView {
        match self {
            CoreError::UnresolvedIdentity(model) => CoreErrorView::UnresolvedIdentity(model@),
            CoreError::NoMatchingOutputs => CoreErrorView::NoMatchingOutputs,
            CoreError::NoEligibleProfile => CoreErrorView::NoEligibleProfile,
            CoreError::ProfileNotFound(name) => CoreErrorView::ProfileNotFound(name@),
            CoreError::Transport(e) => CoreErrorView::Transport {
                index: e.index as nat,
                name: e.name@,
                command: e.command@,
            },
            CoreError::TransportFatal => CoreErrorView::TransportFatal,
        }
    }
}

/// A planning error as an error of a request.
pub open spec fn plan_error(e: PlanErrorView) -> CoreErrorView {
    match e {
        PlanErrorView::UnresolvedIdentity(model) => CoreErrorView::UnresolvedIdentity(model),
        PlanErrorView::NoMatchingOutputs => CoreErrorView::NoMatchingOutputs,
    }
}

/// The text that tells a person what went wrong.
pub open spec fn message_text(e: CoreErrorView) -> Seq<char> {
    match e {
        CoreErrorView::UnresolvedIdentity(model) => "Display '"@ + model + "' is not connected"@,
        CoreErrorView::NoMatchingOutputs => "None of the named outputs is connected"@,
        CoreErrorView::NoEligibleProfile => "No setup fits the connected displays"@,
        CoreErrorView::ProfileNotFound(name) => "Found no setup for '"@ + name + "'"@,
        CoreErrorView::Transport { index, name, command } => "Output '"@ + name
            + "' refused the command '"@ + command + "'"@,
        CoreErrorView::TransportFatal => "Lost the connection to the compositor"@,
    }
}

impl PlanError {
    /// The error as an error of a request.
    pub fn into_core(self) -> (e: CoreError)
        ensures
            e@ == plan_error(self@),
    {
        match self {
            PlanError::UnresolvedIdentity(model) => CoreError::UnresolvedIdentity(model),
            PlanError::NoMatchingOutputs => CoreError::NoMatchingOutputs,
        }
    }

    /// The text that tells a person what went wrong.
    pub fn message(&self) -> (out: String)
        ensures
            out@ == message_text(plan_error(self@)),
    {
        let mut out = String::new();
        match self {
            PlanError::UnresolvedIdentity(model) => {
                out.append("Display '");
                out.append(model.as_str());
                out.append("' is not connected");
            },
            PlanError::NoMatchingOutputs => {
                out.append("None of the named outputs is connected");
            },
        }
        assert(out@ =~= message_text(plan_error(self@)));
        out
    }
}

impl CoreError {
    /// The text that tells a person what went wrong.
    pub fn message(&self) -> (out: String)
        ensures
            out@ == message_text(self@),
    {
        let mut out = String::new();
        match self {
            CoreError::UnresolvedIdentity(model) => {
                out.append("Display '");
                out.append(model.as_str());
                out.append("' is not connected");
            },
            CoreError::NoMatchingOutputs => {
                out.append("None of the named outputs is connected");
            },
            CoreError::NoEligibleProfile => {
                out.append("No setup fits the connected displays");
            },
            CoreError::ProfileNotFound(name) => {
                out.append("Found no setup for '");
                out.append(name.as_str());
                out.append("'");
            },
            CoreError::Transport(e) => {
                out.append("Output '");
                out.append(e.name.as_str());
                out.append("' refused the command '");
                out.append(e.command.as_str());
                out.append("'");
            },
            CoreError::TransportFatal => {
                out.append("Lost the connection to the compositor");
            },
        }
        assert(out@ =~= message_text(self@));
        out
    }
}

/// The value of what a request returns.
pub open spec fn request_view(r: Result<Vec<OutputAction>, CoreError>) -> Result<
    Seq<ActionView>,
    CoreErrorView,
> {
    match r {
        Ok(actions) => Ok(action_views(actions@)),
        Err(e) => Err(e@),
    }
}

/// A plan or a planning error as the result of a request.
pub open spec fn lifted(r: Result<Seq<ActionView>, PlanErrorView>) -> Result<
    Seq<ActionView>,
    CoreErrorView,
> {
    match r {
        Ok(actions) => Ok(actions),
        Err(e) => Err(plan_error(e)),
    }
}

/// What comes of the request to use the profile `name`: an error where the
/// store has no such profile, and else whatever the planner makes of that
/// profile. That the profile is asked for by name does not excuse it from
/// naming connected outputs only.
pub open spec fn activation(
    store: Map<Seq<char>, Seq<DesiredOutputView>>,
    name: Seq<char>,
    connected: Seq<OutputView>,
) -> Result<Seq<ActionView>, CoreErrorView> {
    if store.dom().contains(name) {
        lifted(plan(connected, store[name]))
    } else {
        Err(CoreErrorView::ProfileNotFound(name))
    }
}

/// Plans the use of the profile called `name`.
pub fn activate_profile(store: &Cfgs, name: &str, connected: &Outputs) -> (r: Result<
    Vec<OutputAction>,
    CoreError,
>)
    ensures
        request_view(r) == activation(store@, name@, connected@),
{
    match store.find(name) {
        Some(entries) => match connected.set_models(entries.as_slice()) {
            Ok(actions) => Ok(actions),
            Err(e) => Err(e.into_core()),
        },
        None => Err(CoreError::ProfileNotFound(name.to_owned())),
    }
}

/// Plans the switching on of the outputs called `names`.
pub fn activate_manual(connected: &Outputs, names: &[String]) -> (r: Result<
    Vec<OutputAction>,
    CoreError,
>)
    ensures
        request_view(r) == lifted(plan_manual(connected@, names_of(names@))),
{
    match connected.set_by_name(names) {
        Ok(actions) => Ok(actions),
        Err(e) => Err(e.into_core()),
    }
}

} // verus!
