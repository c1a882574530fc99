//! The layout planner.
//!
//! From a snapshot of the connected outputs and a request, the planner works
//! out one action for every connected output: the outputs that the request
//! resolves to are switched on, side by side from left to right in the order
//! of the request, and all the others are switched off. Nothing is sent
//! anywhere here: a plan is a value, and a request that cannot be planned
//! leaves no trace.
//!
//! Policy. The actions that switch outputs off come first, in the order of
//! the snapshot, and those that switch outputs on follow, in the order of the
//! request. An output that a request mentions more than once is placed where
//! it is mentioned first. Where several connected outputs answer to one
//! request, the first of the snapshot is meant.

use vstd::prelude::*;
use vstd::string::*;
use crate::cfg::{desired_views, DesiredOutput, DesiredOutputView};
use crate::outputs::{best_resolution, OutputView, Outputs};
use crate::scale::Scale;
use crate::text::{eq_ignore_case, eq_str, same_ignoring_case};

verus! {

// ---------------------------------------------------------------------------
// Actions and errors
// ---------------------------------------------------------------------------

/// What is to be done with one connected output.
#[derive(Debug, PartialEq, Eq)]
pub enum OutputAction {
    /// Switch the output on, with its left upper corner at `position`.
    Enable { name: String, position: (u128, u128), resolution: (u32, u32), scale: Scale },
    /// Switch the output off.
    Disable { name: String },
}

/// The mathematical value of an [`OutputAction`].
pub enum ActionView {
    Enable { name: Seq<char>, position: (nat, nat), resolution: (u32, u32), scale: Scale },
    Disable { name: Seq<char> },
}

impl ActionView {
    /// The name of the output that the action is about.
    pub open spec fn name(self) -> Seq<char> {
        match self {
            ActionView::Enable { name, .. } => name,
            ActionView::Disable { name } => name,
        }
    }
}

impl View for OutputAction {
    type V = ActionView;

    open spec fn view(&self) -> ActionView {
        match self {
            OutputAction::Enable { name, position, resolution, scale } => ActionView::Enable {
                name: name@,
                position: (position.0 as nat, position.1 as nat),
                resolution: *resolution,
                scale: *scale,
            },
            OutputAction::Disable { name } => ActionView::Disable { name: name@ },
        }
    }
}

impl Clone for OutputAction {
    fn clone(&self) -> (out: Self)
        ensures
            out@ == self@,
    {
        match self {
            OutputAction::Enable { name, position, resolution, scale } => OutputAction::Enable {
                name: name.clone(),
                position: (position.0, position.1),
                resolution: (resolution.0, resolution.1),
                scale: *scale,
            },
            OutputAction::Disable { name } => OutputAction::Disable { name: name.clone() },
        }
    }
}

/// The values of a list of actions.
pub open spec fn action_views(actions: Seq<OutputAction>) -> Seq<ActionView> {
    actions.map_values(|a: OutputAction| a@)
}

/// Why a request could not be planned.
#[derive(Debug, PartialEq, Eq)]
pub enum PlanError {
    /// A profile names an output that is not connected.
    UnresolvedIdentity(String),
    /// None of the names of a manual request is the name of a connected output.
    NoMatchingOutputs,
}

/// The mathematical value of a [`PlanError`].
pub enum PlanErrorView {
    UnresolvedIdentity(Seq<char>),
    NoMatchingOutputs,
}

impl View for PlanError {
    type V = PlanErrorView;

    open spec fn view(&self) -> PlanErrorView {
        match self {
            PlanError::UnresolvedIdentity(model) => PlanErrorView::UnresolvedIdentity(model@),
            PlanError::NoMatchingOutputs => PlanErrorView::NoMatchingOutputs,
        }
    }
}

/// The value of what the planner returns.
pub open spec fn plan_view(r: Result<Vec<OutputAction>, PlanError>) -> Result<
    Seq<ActionView>,
    PlanErrorView,
> {
    match r {
        Ok(actions) => Ok(action_views(actions@)),
        Err(e) => Err(e@),
    }
}

// ---------------------------------------------------------------------------
// Resolving a request
// ---------------------------------------------------------------------------

/// `connected[i]` is the first output of the snapshot with this make and model.
pub open spec fn is_first_with_model(connected: Seq<OutputView>, model: Seq<char>, i: int) -> bool {
    &&& 0 <= i < connected.len()
    &&& connected[i].model == model
    &&& forall|k: int| 0 <= k < i ==> (#[trigger] connected[k]).model != model
}

/// The place of the first output with this make and model, if one is connected.
pub open spec fn locate_model(connected: Seq<OutputView>, model: Seq<char>) -> Option<int> {
    if exists|i: int| is_first_with_model(connected, model, i) {
        Some(choose|i: int| is_first_with_model(connected, model, i))
    } else {
        None
    }
}

/// `connected[i]` is the first output of the snapshot whose name is `name`,
/// capitals and small letters taken as the same.
pub open spec fn is_first_named(connected: Seq<OutputView>, name: Seq<char>, i: int) -> bool {
    &&& 0 <= i < connected.len()
    &&& same_ignoring_case(connected[i].name, name)
    &&& forall|k: int| 0 <= k < i ==> !same_ignoring_case((#[trigger] connected[k]).name, name)
}

/// The place of the first output with this name, if one is connected.
pub open spec fn locate_name(connected: Seq<OutputView>, name: Seq<char>) -> Option<int> {
    if exists|i: int| is_first_named(connected, name, i) {
        Some(choose|i: int| is_first_named(connected, name, i))
    } else {
        None
    }
}

/// An output that is to be switched on: its place in the snapshot and the
/// scale to give it.
pub struct Target {
    pub index: int,
    pub scale: Scale,
}

/// What each entry of a profile asks for, entry by entry: the first connected
/// output of the make and model that the entry names, at the scale that the
/// entry names, or at scale 1 where it names none.
pub open spec fn profile_wishes(connected: Seq<OutputView>, setup: Seq<DesiredOutputView>) -> Seq<
    Option<Target>,
> {
    Seq::new(
        setup.len(),
        |j: int|
            match locate_model(connected, setup[j].name) {
                Some(i) => Some(
                    Target {
                        index: i,
                        scale: match setup[j].scale {
                            Some(s) => s,
                            None => Scale::one(),
                        },
                    },
                ),
                None => None,
            },
    )
}

/// What each name of a manual request asks for, name by name: the first
/// connected output of that name, at the scale that it has now.
pub open spec fn manual_wishes(connected: Seq<OutputView>, names: Seq<Seq<char>>) -> Seq<
    Option<Target>,
> {
    Seq::new(
        names.len(),
        |j: int|
            match locate_name(connected, names[j]) {
                Some(i) => Some(Target { index: i, scale: connected[i].scale }),
                None => None,
            },
    )
}

/// One of `targets` is the output at place `i`.
pub open spec fn is_target(targets: Seq<Target>, i: int) -> bool {
    exists|k: int| 0 <= k < targets.len() && (#[trigger] targets[k]).index == i
}

/// The outputs to switch on, in the order of the request: every wish that
/// found an output, but each output only where it is wished for first.
pub open spec fn targets_of(wishes: Seq<Option<Target>>) -> Seq<Target>
    decreases wishes.len(),
{
    if wishes.len() == 0 {
        Seq::empty()
    } else {
        let before = targets_of(wishes.drop_last());
        match wishes.last() {
            Some(t) => if is_target(before, t.index) {
                before
            } else {
                before.push(t)
            },
            None => before,
        }
    }
}

// ---------------------------------------------------------------------------
// Laying the targets out
// ---------------------------------------------------------------------------

/// How far from the left edge target `j` begins: the widths of all the
/// targets before it, added up.
pub open spec fn offset(connected: Seq<OutputView>, targets: Seq<Target>, j: int) -> nat
    decreases j,
{
    if j <= 0 {
        0
    } else {
        offset(connected, targets, j - 1) + best_resolution(
            connected[targets[j - 1].index].modes,
        ).0 as nat
    }
}

/// The action that switches target `j` on.
pub open spec fn enable_at(connected: Seq<OutputView>, targets: Seq<Target>, j: int) -> ActionView {
    ActionView::Enable {
        name: connected[targets[j].index].name,
        position: (offset(connected, targets, j), 0),
        resolution: best_resolution(connected[targets[j].index].modes),
        scale: targets[j].scale,
    }
}

/// The actions that switch the targets on, in their order.
pub open spec fn enables(connected: Seq<OutputView>, targets: Seq<Target>) -> Seq<ActionView> {
    Seq::new(targets.len(), |j: int| enable_at(connected, targets, j))
}

/// The actions that switch off those of the first `n` outputs of the
/// snapshot that are no target, in the order of the snapshot.
pub open spec fn disables(connected: Seq<OutputView>, targets: Seq<Target>, n: int) -> Seq<
    ActionView,
>
    decreases n,
{
    if n <= 0 {
        Seq::empty()
    } else if is_target(targets, n - 1) {
        disables(connected, targets, n - 1)
    } else {
        disables(connected, targets, n - 1).push(ActionView::Disable { name: connected[n - 1].name })
    }
}

/// The whole plan for a list of targets: first every other output is
/// switched off, then the targets are switched on.
pub open spec fn layout(connected: Seq<OutputView>, targets: Seq<Target>) -> Seq<ActionView> {
    disables(connected, targets, connected.len() as int) + enables(connected, targets)
}

// ---------------------------------------------------------------------------
// The two kinds of request
// ---------------------------------------------------------------------------

/// Entry `j` is the first entry of the profile that names an output that is
/// not connected.
pub open spec fn is_first_unresolved(
    connected: Seq<OutputView>,
    setup: Seq<DesiredOutputView>,
    j: int,
) -> bool {
    &&& 0 <= j < setup.len()
    &&& locate_model(connected, setup[j].name) is None
    &&& forall|k: int| 0 <= k < j ==> locate_model(connected, (#[trigger] setup[k]).name) is Some
}

/// The plan for a profile. Where an entry names an output that is not
/// connected, there is no plan, and the error names the first such output.
pub open spec fn plan(connected: Seq<OutputView>, setup: Seq<DesiredOutputView>) -> Result<
    Seq<ActionView>,
    PlanErrorView,
> {
    if exists|j: int| is_first_unresolved(connected, setup, j) {
        Err(
            PlanErrorView::UnresolvedIdentity(
                setup[choose|j: int| is_first_unresolved(connected, setup, j)].name,
            ),
        )
    } else {
        Ok(layout(connected, targets_of(profile_wishes(connected, setup))))
    }
}

/// The plan for a manual request. Names that no connected output has are
/// passed over; where that leaves nothing to switch on, there is no plan.
pub open spec fn plan_manual(connected: Seq<OutputView>, names: Seq<Seq<char>>) -> Result<
    Seq<ActionView>,
    PlanErrorView,
> {
    if targets_of(manual_wishes(connected, names)).len() == 0 {
        Err(PlanErrorView::NoMatchingOutputs)
    } else {
        Ok(layout(connected, targets_of(manual_wishes(connected, names))))
    }
}

// ---------------------------------------------------------------------------
// The planner
// ---------------------------------------------------------------------------

/// A target as the planner holds it while it runs.
struct Pick {
    index: usize,
    scale: Scale,
}

spec fn pick_views(picks: Seq<Pick>) -> Seq<Target> {
    picks.map_values(|p: Pick| Target { index: p.index as int, scale: p.scale })
}

spec fn as_place(r: Option<usize>) -> Option<int> {
    match r {
        Some(i) => Some(i as int),
        None => None,
    }
}

proof fn lemma_first_with_model_unique(connected: Seq<OutputView>, model: Seq<char>, i: int, j: int)
    requires
        is_first_with_model(connected, model, i),
        is_first_with_model(connected, model, j),
    ensures
        i == j,
{
    if i < j {
        assert(connected[i].model != model);
    } else if j < i {
        assert(connected[j].model != model);
    }
}

proof fn lemma_first_named_unique(connected: Seq<OutputView>, name: Seq<char>, i: int, j: int)
    requires
        is_first_named(connected, name, i),
        is_first_named(connected, name, j),
    ensures
        i == j,
{
    if i < j {
        assert(!same_ignoring_case(connected[i].name, name));
    } else if j < i {
        assert(!same_ignoring_case(connected[j].name, name));
    }
}

proof fn lemma_first_unresolved_unique(
    connected: Seq<OutputView>,
    setup: Seq<DesiredOutputView>,
    i: int,
    j: int,
)
    requires
        is_first_unresolved(connected, setup, i),
        is_first_unresolved(connected, setup, j),
    ensures
        i == j,
{
    if i < j {
        assert(locate_model(connected, setup[i].name) is Some);
    } else if j < i {
        assert(locate_model(connected, setup[j].name) is Some);
    }
}

fn find_model(connected: &Outputs, model: &str) -> (r: Option<usize>)
    ensures
        as_place(r) == locate_model(connected@, model@),
        r matches Some(i) ==> is_first_with_model(connected@, model@, i as int),
{
    let mut i: usize = 0;
    while i < connected.len()
        invariant
            i <= connected@.len(),
            forall|k: int| 0 <= k < i ==> (#[trigger] connected@[k]).model != model@,
        decreases connected@.len() - i,
    {
        if eq_str(connected.get(i).model(), model) {
            proof {
                assert(is_first_with_model(connected@, model@, i as int));
                let c = choose|c: int| is_first_with_model(connected@, model@, c);
                lemma_first_with_model_unique(connected@, model@, c, i as int);
            }
            return Some(i);
        }
        i += 1;
    }
    None
}

fn find_name(connected: &Outputs, name: &str) -> (r: Option<usize>)
    ensures
        as_place(r) == locate_name(connected@, name@),
        r matches Some(i) ==> is_first_named(connected@, name@, i as int),
{
    let mut i: usize = 0;
    while i < connected.len()
        invariant
            i <= connected@.len(),
            forall|k: int| 0 <= k < i ==> !same_ignoring_case((#[trigger] connected@[k]).name, name@),
        decreases connected@.len() - i,
    {
        if eq_ignore_case(connected.get(i).name(), name) {
            proof {
                assert(is_first_named(connected@, name@, i as int));
                let c = choose|c: int| is_first_named(connected@, name@, c);
                lemma_first_named_unique(connected@, name@, c, i as int);
            }
            return Some(i);
        }
        i += 1;
    }
    None
}

fn holds(picks: &Vec<Pick>, i: usize) -> (r: bool)
    ensures
        r == is_target(pick_views(picks@), i as int),
{
    let mut k: usize = 0;
    while k < picks.len()
        invariant
            k <= picks.len(),
            forall|m: int| 0 <= m < k ==> (#[trigger] pick_views(picks@)[m]).index != i,
        decreases picks.len() - k,
    {
        if picks[k].index == i {
            assert(pick_views(picks@)[k as int].index == i);
            return true;
        }
        k += 1;
    }
    false
}

/// Adds the wish `found` to the targets gathered from the wishes before it.
fn gather(
    picks: &mut Vec<Pick>,
    found: Option<usize>,
    scale: Scale,
    Ghost(wishes): Ghost<Seq<Option<Target>>>,
)
    requires
        wishes.len() > 0,
        pick_views(old(picks)@) == targets_of(wishes.drop_last()),
        wishes.last() == match found {
            Some(i) => Some(Target { index: i as int, scale }),
            None => None,
        },
    ensures
        pick_views(final(picks)@) == targets_of(wishes),
        found is None ==> final(picks)@ == old(picks)@,
        found matches Some(i) ==> final(picks)@.len() > 0 && (final(picks)@ == old(picks)@
            || final(picks)@ == old(picks)@.push(Pick { index: i, scale })),
{
    match found {
        Some(i) => {
            if !holds(picks, i) {
                let ghost before = picks@;
                picks.push(Pick { index: i, scale });
                assert(pick_views(picks@) =~= pick_views(before).push(
                    Target { index: i as int, scale },
                ));
            } else {
                proof {
                    let targets = pick_views(picks@);
                    let k = choose|k: int| 0 <= k < targets.len() && (#[trigger] targets[k]).index == i;
                    assert(picks@.len() > 0);
                }
            }
        },
        None => {},
    }
}

impl Outputs {
    /// Lays the targets out.
    fn arrange(&self, picks: &Vec<Pick>) -> (actions: Vec<OutputAction>)
        requires
            forall|k: int| 0 <= k < picks.len() ==> (#[trigger] picks@[k]).index < self@.len(),
        ensures
            action_views(actions@) == layout(self@, pick_views(picks@)),
    {
        let ghost targets = pick_views(picks@);
        let mut actions: Vec<OutputAction> = Vec::new();
        let mut n: usize = 0;
        while n < self.len()
            invariant
                n <= self@.len(),
                targets == pick_views(picks@),
                action_views(actions@) == disables(self@, targets, n as int),
            decreases self@.len() - n,
        {
            if !holds(picks, n) {
                let ghost before = actions@;
                let action = OutputAction::Disable { name: self.get(n).name().to_owned() };
                actions.push(action);
                assert(action_views(actions@) =~= action_views(before).push(action@));
            }
            n += 1;
        }
        let ghost off = disables(self@, targets, self@.len() as int);
        let mut x: u128 = 0;
        let mut j: usize = 0;
        while j < picks.len()
            invariant
                j <= picks.len(),
                targets == pick_views(picks@),
                forall|k: int| 0 <= k < picks.len() ==> (#[trigger] picks@[k]).index < self@.len(),
                x == offset(self@, targets, j as int),
                x <= j * 0xFFFF_FFFF,
                action_views(actions@) == off + enables(self@, targets).take(j as int),
            decreases picks.len() - j,
        {
            let pick = &picks[j];
            let output = self.get(pick.index);
            let resolution: (u32, u32) = match output.best_mode() {
                Some(mode) => (mode.width, mode.height),
                None => (0, 0),
            };
            assert(resolution == best_resolution(self@[targets[j as int].index].modes));
            let ghost before = actions@;
            let action = OutputAction::Enable {
                name: output.name().to_owned(),
                position: (x, 0),
                resolution,
                scale: pick.scale,
            };
            assert(action@ == enable_at(self@, targets, j as int));
            actions.push(action);
            assert((j + 1) * 0xFFFF_FFFF <= 0xFFFF_FFFF_FFFF_FFFF * 0xFFFF_FFFF) by (nonlinear_arith)
                requires
                    j + 1 <= 0xFFFF_FFFF_FFFF_FFFF,
            ;
            x = x + (resolution.0 as u128);
            j += 1;
            assert(action_views(actions@) =~= off + enables(self@, targets).take(j as int)) by {
                assert(action_views(actions@) =~= action_views(before).push(action@));
            }
        }
        assert(enables(self@, targets).take(j as int) =~= enables(self@, targets));
        actions
    }

    /// Plans the layout that a profile asks for.
    ///
    /// Every entry of `setup` stands for the first connected output of the
    /// make and model that it names. These outputs are switched on and put
    /// side by side on the top edge, from left to right in the order of the
    /// profile, each at its best mode and at the scale that the entry names
    /// (1 where it names none). All other connected outputs are switched off.
    /// The result is [`plan`]: the actions in the order in which they are to
    /// be carried out, or the first output that the profile names and that is
    /// not connected.
    pub fn set_models(&self, setup: &[DesiredOutput]) -> (r: Result<Vec<OutputAction>, PlanError>)
        ensures
            plan_view(r) == plan(self@, desired_views(setup@)),
            r is Ok <==> forall|j: int|
                0 <= j < setup@.len() ==> locate_model(
                    self@,
                    (#[trigger] desired_views(setup@)[j]).name,
                ) is Some,
    {
        let ghost wanted = desired_views(setup@);
        let ghost wishes = profile_wishes(self@, wanted);
        let mut picks: Vec<Pick> = Vec::new();
        let mut j: usize = 0;
        assert(wishes.take(0) =~= Seq::empty());
        while j < setup.len()
            invariant
                j <= setup@.len(),
                wanted == desired_views(setup@),
                wishes == profile_wishes(self@, wanted),
                pick_views(picks@) == targets_of(wishes.take(j as int)),
                forall|k: int| 0 <= k < picks.len() ==> (#[trigger] picks@[k]).index < self@.len(),
                forall|k: int| 0 <= k < j ==> locate_model(self@, (#[trigger] wanted[k]).name) is Some,
            decreases setup@.len() - j,
        {
            let entry = &setup[j];
            let found = find_model(self, entry.name());
            match found {
                Some(_) => {},
                None => {
                    proof {
                        assert(is_first_unresolved(self@, wanted, j as int));
                        let c = choose|c: int| is_first_unresolved(self@, wanted, c);
                        lemma_first_unresolved_unique(self@, wanted, c, j as int);
                    }
                    return Err(PlanError::UnresolvedIdentity(entry.name().to_owned()));
                },
            }
            let scale = match entry.scale() {
                Some(s) => s,
                None => Scale::new(1_000_000),
            };
            proof {
                assert(wishes.take(j + 1).drop_last() =~= wishes.take(j as int));
            }
            gather(&mut picks, found, scale, Ghost(wishes.take(j + 1)));
            j += 1;
        }
        proof {
            assert(wishes.take(j as int) =~= wishes);
            assert forall|c: int| !is_first_unresolved(self@, wanted, c) by {
                if 0 <= c < wanted.len() {
                    assert(locate_model(self@, wanted[c].name) is Some);
                }
            }
        }
        Ok(self.arrange(&picks))
    }

    /// Plans the layout that a list of output names asks for.
    ///
    /// Every name of `setup` stands for the first connected output of that
    /// name, capitals and small letters taken as the same; a name that no
    /// connected output has is passed over. The outputs that were named are
    /// switched on and put side by side on the top edge, from left to right
    /// in the order of the names, each at its best mode and at the scale that
    /// it has now. All other connected outputs are switched off. The result
    /// is [`plan_manual`]: the actions in the order in which they are to be
    /// carried out, or an error where no name is that of a connected output.
    pub fn set_by_name(&self, setup: &[String]) -> (r: Result<Vec<OutputAction>, PlanError>)
        ensures
            plan_view(r) == plan_manual(self@, names_of(setup@)),
            r is Ok <==> exists|j: int|
                0 <= j < setup@.len() && locate_name(self@, #[trigger] names_of(setup@)[j]) is Some,
    {
        let ghost names = names_of(setup@);
        let ghost wishes = manual_wishes(self@, names);
        let mut picks: Vec<Pick> = Vec::new();
        let mut j: usize = 0;
        assert(wishes.take(0) =~= Seq::empty());
        while j < setup.len()
            invariant
                j <= setup@.len(),
                names == names_of(setup@),
                wishes == manual_wishes(self@, names),
                pick_views(picks@) == targets_of(wishes.take(j as int)),
                forall|k: int| 0 <= k < picks.len() ==> (#[trigger] picks@[k]).index < self@.len(),
                picks.len() == 0 <==> forall|k: int|
                    0 <= k < j ==> locate_name(self@, #[trigger] names[k]) is None,
            decreases setup@.len() - j,
        {
            let found = find_name(self, setup[j].as_str());
            let scale = match found {
                Some(i) => self.get(i).scale(),
                None => Scale::new(1_000_000),
            };
            proof {
                assert(wishes.take(j + 1).drop_last() =~= wishes.take(j as int));
            }
            gather(&mut picks, found, scale, Ghost(wishes.take(j + 1)));
            j += 1;
        }
        proof {
            assert(wishes.take(j as int) =~= wishes);
        }
        if picks.len() == 0 {
            return Err(PlanError::NoMatchingOutputs);
        }
        Ok(self.arrange(&picks))
    }
}

/// The characters of each of a list of strings.
pub open spec fn names_of(names: Seq<String>) -> Seq<Seq<char>> {
    names.map_values(|s: String| s@)
}

} // verus!
