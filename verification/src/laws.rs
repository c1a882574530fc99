//! What holds of every plan.
//!
//! The planner's contracts say what a plan is. The proofs here draw from that
//! what a user of the planner relies on: that planning is a function of its
//! inputs, that the outputs switched on stand side by side, and that every
//! connected output gets exactly one action.

use vstd::prelude::*;
use crate::cfg::DesiredOutputView;
use crate::outputs::OutputView;
use crate::plan::{
    disables, enable_at, enables, is_first_named, is_first_with_model, is_target, layout,
    locate_model, locate_name, manual_wishes, offset, plan, plan_manual, profile_wishes,
    targets_of, ActionView, PlanErrorView, Target,
};

verus! {

// ---------------------------------------------------------------------------
// Planning is a function of its inputs
// ---------------------------------------------------------------------------

/// Two runs of the planner on the same snapshot and the same profile give the
/// same result, action for action.
pub proof fn lemma_plan_is_deterministic(
    connected: Seq<OutputView>,
    setup: Seq<DesiredOutputView>,
    first: Result<Seq<ActionView>, PlanErrorView>,
    second: Result<Seq<ActionView>, PlanErrorView>,
)
    requires
        first == plan(connected, setup),
        second == plan(connected, setup),
    ensures
        first == second,
{
}

/// Two runs of the planner on the same snapshot and the same names give the
/// same result, action for action.
pub proof fn lemma_plan_manual_is_deterministic(
    connected: Seq<OutputView>,
    names: Seq<Seq<char>>,
    first: Result<Seq<ActionView>, PlanErrorView>,
    second: Result<Seq<ActionView>, PlanErrorView>,
)
    requires
        first == plan_manual(connected, names),
        second == plan_manual(connected, names),
    ensures
        first == second,
{
}

// ---------------------------------------------------------------------------
// Side by side
// ---------------------------------------------------------------------------

/// Every plan is tiled from left to right. Its last actions, as many as
/// there are targets, switch the targets on, all of them on the top edge: the
/// first at the left edge, and each of the others where the one before it
/// ends. The actions before them switch outputs off.
pub proof fn lemma_horizontal_tiling(connected: Seq<OutputView>, targets: Seq<Target>)
    ensures
        ({
            let actions = layout(connected, targets);
            let first = actions.len() - targets.len();
            &&& first >= 0
            &&& forall|a: int| 0 <= a < first ==> (#[trigger] actions[a]) is Disable
            &&& forall|a: int|
                first <= a < actions.len() ==> (#[trigger] actions[a]) is Enable
                    && actions[a]->position.1 == 0
            &&& targets.len() > 0 ==> actions[first]->position.0 == 0
            &&& forall|a: int|
                first <= a && a + 1 < actions.len() ==> (#[trigger] actions[a + 1])->position.0
                    == actions[a]->position.0 + actions[a]->resolution.0
        }),
{
    let actions = layout(connected, targets);
    let off = disables(connected, targets, connected.len() as int);
    let first = actions.len() - targets.len();
    lemma_disables_are_disables(connected, targets, connected.len() as int);
    assert(first == off.len());
    assert forall|a: int| first <= a < actions.len() implies (#[trigger] actions[a]) == enable_at(
        connected,
        targets,
        a - first,
    ) by {
        assert(actions[a] == enables(connected, targets)[a - first]);
    }
    assert forall|a: int| first <= a && a + 1 < actions.len() implies (#[trigger] actions[a
        + 1])->position.0 == actions[a]->position.0 + actions[a]->resolution.0 by {
        assert(actions[a] == enable_at(connected, targets, a - first));
        assert(actions[a + 1] == enable_at(connected, targets, a + 1 - first));
        assert(offset(connected, targets, a + 1 - first) == offset(connected, targets, a - first)
            + enable_at(connected, targets, a - first)->resolution.0);
    }
}

proof fn lemma_disables_are_disables(connected: Seq<OutputView>, targets: Seq<Target>, n: int)
    ensures
        forall|a: int|
            0 <= a < disables(connected, targets, n).len() ==> (#[trigger] disables(
                connected,
                targets,
                n,
            )[a]) is Disable,
    decreases n,
{
    if n > 0 {
        lemma_disables_are_disables(connected, targets, n - 1);
    }
}

// ---------------------------------------------------------------------------
// One action for every connected output
// ---------------------------------------------------------------------------

/// The places of those of the first `n` outputs of a snapshot that are no
/// target, in ascending order.
pub open spec fn spared(targets: Seq<Target>, n: int) -> Seq<int>
    decreases n,
{
    if n <= 0 {
        Seq::empty()
    } else if is_target(targets, n - 1) {
        spared(targets, n - 1)
    } else {
        spared(targets, n - 1).push(n - 1)
    }
}

/// For each action of a layout, the place in the snapshot of the output that
/// the action is about.
pub open spec fn subjects(connected: Seq<OutputView>, targets: Seq<Target>) -> Seq<int> {
    spared(targets, connected.len() as int) + Seq::new(targets.len(), |j: int| targets[j].index)
}

/// The targets are outputs of the snapshot, and no output is a target twice.
pub open spec fn valid_targets(connected: Seq<OutputView>, targets: Seq<Target>) -> bool {
    &&& forall|k: int| 0 <= k < targets.len() ==> 0 <= (#[trigger] targets[k]).index < connected.len()
    &&& forall|j: int, k: int|
        0 <= j < k < targets.len() ==> (#[trigger] targets[j]).index != (#[trigger] targets[k]).index
}

proof fn lemma_spared(targets: Seq<Target>, n: int)
    ensures
        forall|a: int|
            0 <= a < spared(targets, n).len() ==> 0 <= (#[trigger] spared(targets, n)[a]) < n
                && !is_target(targets, spared(targets, n)[a]),
        forall|i: int| 0 <= i < n && !is_target(targets, i) ==> spared(targets, n).contains(i),
        spared(targets, n).no_duplicates(),
    decreases n,
{
    if n > 0 {
        lemma_spared(targets, n - 1);
        let before = spared(targets, n - 1);
        if !is_target(targets, n - 1) {
            let now = before.push(n - 1);
            assert forall|i: int| 0 <= i < n && !is_target(targets, i) implies now.contains(i) by {
                if i < n - 1 {
                    let a = before.index_of(i);
                    assert(now[a] == i);
                } else {
                    assert(now[before.len() as int] == i);
                }
            }
        }
    }
}

proof fn lemma_disables_follow_spared(connected: Seq<OutputView>, targets: Seq<Target>, n: int)
    requires
        n <= connected.len(),
    ensures
        disables(connected, targets, n).len() == spared(targets, n).len(),
        forall|a: int|
            0 <= a < spared(targets, n).len() ==> (#[trigger] disables(connected, targets, n)[a])
                == (ActionView::Disable { name: connected[spared(targets, n)[a]].name }),
    decreases n,
{
    if n > 0 {
        lemma_disables_follow_spared(connected, targets, n - 1);
    }
}

/// Every action of a layout is about the output that [`subjects`] names for
/// it: it carries the name of that output, it switches the output on if the
/// output is a target, and off if it is not.
pub proof fn lemma_actions_follow_subjects(connected: Seq<OutputView>, targets: Seq<Target>)
    ensures
        layout(connected, targets).len() == subjects(connected, targets).len(),
        forall|a: int|
            0 <= a < layout(connected, targets).len() ==> {
                let action = #[trigger] layout(connected, targets)[a];
                let place = subjects(connected, targets)[a];
                &&& action.name() == connected[place].name
                &&& action is Enable <==> is_target(targets, place)
            },
{
    let n = connected.len() as int;
    lemma_spared(targets, n);
    lemma_disables_follow_spared(connected, targets, n);
    let off = disables(connected, targets, n);
    assert forall|a: int| 0 <= a < layout(connected, targets).len() implies {
        let action = #[trigger] layout(connected, targets)[a];
        let place = subjects(connected, targets)[a];
        &&& action.name() == connected[place].name
        &&& action is Enable <==> is_target(targets, place)
    } by {
        if a >= off.len() {
            let j = a - off.len();
            assert(layout(connected, targets)[a] == enable_at(connected, targets, j));
            assert(subjects(connected, targets)[a] == targets[j].index);
        } else {
            assert(layout(connected, targets)[a] == off[a]);
            assert(subjects(connected, targets)[a] == spared(targets, n)[a]);
        }
    }
}

/// A layout has exactly one action for every output of the snapshot: the
/// places that its actions are about are all the places of the snapshot, each
/// of them once.
pub proof fn lemma_one_action_each(connected: Seq<OutputView>, targets: Seq<Target>)
    requires
        valid_targets(connected, targets),
    ensures
        layout(connected, targets).len() == connected.len(),
        subjects(connected, targets).len() == connected.len(),
        subjects(connected, targets).no_duplicates(),
        forall|i: int| 0 <= i < connected.len() <==> subjects(connected, targets).contains(i),
{
    let n = connected.len() as int;
    let s = subjects(connected, targets);
    let off = spared(targets, n);
    lemma_spared(targets, n);
    lemma_actions_follow_subjects(connected, targets);
    assert forall|a: int, b: int| 0 <= a < b < s.len() implies s[a] != s[b] by {
        if b < off.len() {
            assert(off[a] != off[b]);
        } else if a < off.len() {
            assert(!is_target(targets, off[a]));
            assert(targets[b - off.len()].index == s[b]);
        } else {
            assert(targets[a - off.len()].index != targets[b - off.len()].index);
        }
    }
    assert forall|i: int| 0 <= i < n implies s.contains(i) by {
        if is_target(targets, i) {
            let k = choose|k: int| 0 <= k < targets.len() && (#[trigger] targets[k]).index == i;
            assert(s[off.len() + k] == i);
        } else {
            let a = off.index_of(i);
            assert(s[a] == i);
        }
    }
    assert forall|i: int| s.contains(i) implies 0 <= i < n by {
        let a = s.index_of(i);
        if a >= off.len() {
            assert(targets[a - off.len()].index == i);
        } else {
            assert(off[a] == i);
        }
    }
    s.unique_seq_to_set();
    vstd::set_lib::lemma_int_range(0, n);
    assert(s.to_set() =~= vstd::set_lib::set_int_range(0, n));
}

/// Every target comes from a wish, every wish that found an output made it a
/// target, and no output is a target twice.
pub proof fn lemma_targets_of(wishes: Seq<Option<Target>>)
    ensures
        forall|k: int|
            0 <= k < targets_of(wishes).len() ==> wishes.contains(
                Some(#[trigger] targets_of(wishes)[k]),
            ),
        forall|j: int|
            0 <= j < wishes.len() && (#[trigger] wishes[j]) is Some ==> is_target(
                targets_of(wishes),
                wishes[j]->0.index,
            ),
        forall|j: int, k: int|
            0 <= j < k < targets_of(wishes).len() ==> (#[trigger] targets_of(wishes)[j]).index != (
            #[trigger] targets_of(wishes)[k]).index,
    decreases wishes.len(),
{
    if wishes.len() > 0 {
        let earlier = wishes.drop_last();
        lemma_targets_of(earlier);
        let before = targets_of(earlier);
        let now = targets_of(wishes);
        assert forall|k: int| 0 <= k < now.len() implies wishes.contains(Some(#[trigger] now[k])) by {
            if k < before.len() {
                let j = earlier.index_of(Some(before[k]));
                assert(wishes[j] == Some(now[k]));
            } else {
                assert(wishes[wishes.len() - 1] == Some(now[k]));
            }
        }
        assert forall|j: int| 0 <= j < wishes.len() && (#[trigger] wishes[j]) is Some implies is_target(
            now,
            wishes[j]->0.index,
        ) by {
            if j < earlier.len() {
                assert(earlier[j] == wishes[j]);
                let k = choose|k: int|
                    0 <= k < before.len() && (#[trigger] before[k]).index == wishes[j]->0.index;
                assert(now[k].index == wishes[j]->0.index);
            } else if is_target(before, wishes[j]->0.index) {
                let k = choose|k: int|
                    0 <= k < before.len() && (#[trigger] before[k]).index == wishes[j]->0.index;
                assert(now[k].index == wishes[j]->0.index);
            } else {
                assert(now[before.len() as int].index == wishes[j]->0.index);
            }
        }
    }
}

/// What a profile switches on: the targets are outputs of the snapshot, each
/// once, and an output is a target exactly when it is the first of its make
/// and model and an entry of the profile names that make and model.
pub proof fn lemma_profile_targets(connected: Seq<OutputView>, setup: Seq<DesiredOutputView>)
    ensures
        valid_targets(connected, targets_of(profile_wishes(connected, setup))),
        forall|i: int|
            is_target(targets_of(profile_wishes(connected, setup)), i) <==> exists|j: int|
                0 <= j < setup.len() && is_first_with_model(
                    connected,
                    (#[trigger] setup[j]).name,
                    i,
                ),
{
    let wishes = profile_wishes(connected, setup);
    let targets = targets_of(wishes);
    lemma_targets_of(wishes);
    assert forall|k: int| 0 <= k < targets.len() implies 0 <= (#[trigger] targets[k]).index
        < connected.len() by {
        let j = wishes.index_of(Some(targets[k]));
        assert(wishes[j] == Some(targets[k]));
        lemma_located_model(connected, setup[j].name);
    }
    assert forall|i: int| is_target(targets, i) implies exists|j: int|
        0 <= j < setup.len() && is_first_with_model(connected, (#[trigger] setup[j]).name, i) by {
        let k = choose|k: int| 0 <= k < targets.len() && (#[trigger] targets[k]).index == i;
        let j = wishes.index_of(Some(targets[k]));
        assert(wishes[j] == Some(targets[k]));
        lemma_located_model(connected, setup[j].name);
        assert(is_first_with_model(connected, setup[j].name, i));
    }
    assert forall|i: int|
        (exists|j: int|
            0 <= j < setup.len() && is_first_with_model(
                connected,
                (#[trigger] setup[j]).name,
                i,
            )) implies is_target(targets, i) by {
        let j = choose|j: int|
            0 <= j < setup.len() && is_first_with_model(connected, (#[trigger] setup[j]).name, i);
        lemma_located_model(connected, setup[j].name);
        assert(wishes[j] is Some && wishes[j]->0.index == i);
    }
}

/// What a manual request switches on: the targets are outputs of the
/// snapshot, each once, and an output is a target exactly when it is the
/// first that answers to one of the names.
pub proof fn lemma_manual_targets(connected: Seq<OutputView>, names: Seq<Seq<char>>)
    ensures
        valid_targets(connected, targets_of(manual_wishes(connected, names))),
        forall|i: int|
            is_target(targets_of(manual_wishes(connected, names)), i) <==> exists|j: int|
                0 <= j < names.len() && is_first_named(connected, #[trigger] names[j], i),
{
    let wishes = manual_wishes(connected, names);
    let targets = targets_of(wishes);
    lemma_targets_of(wishes);
    assert forall|k: int| 0 <= k < targets.len() implies 0 <= (#[trigger] targets[k]).index
        < connected.len() by {
        let j = wishes.index_of(Some(targets[k]));
        assert(wishes[j] == Some(targets[k]));
        lemma_located_name(connected, names[j]);
    }
    assert forall|i: int| is_target(targets, i) implies exists|j: int|
        0 <= j < names.len() && is_first_named(connected, #[trigger] names[j], i) by {
        let k = choose|k: int| 0 <= k < targets.len() && (#[trigger] targets[k]).index == i;
        let j = wishes.index_of(Some(targets[k]));
        assert(wishes[j] == Some(targets[k]));
        lemma_located_name(connected, names[j]);
        assert(is_first_named(connected, names[j], i));
    }
    assert forall|i: int|
        (exists|j: int|
            0 <= j < names.len() && is_first_named(connected, #[trigger] names[j], i)) implies is_target(
        targets,
        i,
    ) by {
        let j = choose|j: int|
            0 <= j < names.len() && is_first_named(connected, #[trigger] names[j], i);
        lemma_located_name(connected, names[j]);
        assert(wishes[j] is Some && wishes[j]->0.index == i);
    }
}

/// A plan for a profile deals with every connected output exactly once. Its
/// actions are about all the outputs of the snapshot, each of them once; an
/// action carries the name of its output; and it switches the output on
/// exactly when the output is the first of a make and model that the profile
/// names.
pub proof fn lemma_profile_plan_covers(connected: Seq<OutputView>, setup: Seq<DesiredOutputView>)
    requires
        plan(connected, setup) is Ok,
    ensures
        ({
            let actions = plan(connected, setup)->Ok_0;
            let places = subjects(connected, targets_of(profile_wishes(connected, setup)));
            &&& actions.len() == connected.len()
            &&& places.len() == connected.len()
            &&& places.no_duplicates()
            &&& forall|a: int|
                0 <= a < actions.len() ==> {
                    &&& 0 <= places[a] < connected.len()
                    &&& (#[trigger] actions[a]).name() == connected[places[a]].name
                    &&& actions[a] is Enable <==> exists|j: int|
                        0 <= j < setup.len() && is_first_with_model(
                            connected,
                            (#[trigger] setup[j]).name,
                            places[a],
                        )
                }
        }),
{
    let targets = targets_of(profile_wishes(connected, setup));
    let places = subjects(connected, targets);
    lemma_profile_targets(connected, setup);
    lemma_one_action_each(connected, targets);
    lemma_actions_follow_subjects(connected, targets);
    assert forall|a: int| 0 <= a < places.len() implies 0 <= #[trigger] places[a] < connected.len() by {
        assert(places.contains(places[a]));
    }
}

/// A plan for a manual request deals with every connected output exactly
/// once. Its actions are about all the outputs of the snapshot, each of them
/// once; an action carries the name of its output; and it switches the output
/// on exactly when the output is the first that answers to one of the names.
pub proof fn lemma_manual_plan_covers(connected: Seq<OutputView>, names: Seq<Seq<char>>)
    requires
        plan_manual(connected, names) is Ok,
    ensures
        ({
            let actions = plan_manual(connected, names)->Ok_0;
            let places = subjects(connected, targets_of(manual_wishes(connected, names)));
            &&& actions.len() == connected.len()
            &&& places.len() == connected.len()
            &&& places.no_duplicates()
            &&& forall|a: int|
                0 <= a < actions.len() ==> {
                    &&& 0 <= places[a] < connected.len()
                    &&& (#[trigger] actions[a]).name() == connected[places[a]].name
                    &&& actions[a] is Enable <==> exists|j: int|
                        0 <= j < names.len() && is_first_named(
                            connected,
                            #[trigger] names[j],
                            places[a],
                        )
                }
        }),
{
    let targets = targets_of(manual_wishes(connected, names));
    let places = subjects(connected, targets);
    lemma_manual_targets(connected, names);
    lemma_one_action_each(connected, targets);
    lemma_actions_follow_subjects(connected, targets);
    assert forall|a: int| 0 <= a < places.len() implies 0 <= #[trigger] places[a] < connected.len() by {
        assert(places.contains(places[a]));
    }
}

/// A profile that names connected outputs only can always be planned.
pub proof fn lemma_candidate_can_be_planned(
    connected: Seq<OutputView>,
    setup: Seq<DesiredOutputView>,
)
    requires
        crate::select::is_candidate(connected, setup),
    ensures
        plan(connected, setup) is Ok,
{
    assert forall|j: int| !crate::plan::is_first_unresolved(connected, setup, j) by {
        if 0 <= j < setup.len() {
            assert(crate::select::wanted(setup).contains(setup[j].name));
            assert(crate::select::identities(connected).contains(setup[j].name));
            lemma_located_model(connected, setup[j].name);
        }
    }
}

/// [`locate_model`] finds the first output of a make and model, and it finds
/// one whenever one is connected.
pub proof fn lemma_located_model(connected: Seq<OutputView>, model: Seq<char>)
    ensures
        locate_model(connected, model) matches Some(i) ==> is_first_with_model(connected, model, i),
        forall|i: int|
            is_first_with_model(connected, model, i) ==> locate_model(connected, model) == Some(i),
        locate_model(connected, model) is Some <==> exists|i: int|
            0 <= i < connected.len() && (#[trigger] connected[i]).model == model,
{
    assert forall|i: int| is_first_with_model(connected, model, i) implies locate_model(
        connected,
        model,
    ) == Some(i) by {
        let c = choose|c: int| is_first_with_model(connected, model, c);
        if c < i {
            assert(connected[c].model != model);
        } else if i < c {
            assert(connected[i].model != model);
        }
    }
    if exists|i: int| 0 <= i < connected.len() && (#[trigger] connected[i]).model == model {
        let i = choose|i: int| 0 <= i < connected.len() && (#[trigger] connected[i]).model == model;
        lemma_first_model_exists(connected, model, i);
    }
}

proof fn lemma_first_model_exists(connected: Seq<OutputView>, model: Seq<char>, i: int)
    requires
        0 <= i < connected.len(),
        connected[i].model == model,
    ensures
        exists|f: int| is_first_with_model(connected, model, f),
    decreases i,
{
    if exists|k: int| 0 <= k < i && (#[trigger] connected[k]).model == model {
        let k = choose|k: int| 0 <= k < i && (#[trigger] connected[k]).model == model;
        lemma_first_model_exists(connected, model, k);
    } else {
        assert(is_first_with_model(connected, model, i));
    }
}

/// [`locate_name`] finds the first output that answers to a name, and it
/// finds one whenever one is connected.
pub proof fn lemma_located_name(connected: Seq<OutputView>, name: Seq<char>)
    ensures
        locate_name(connected, name) matches Some(i) ==> is_first_named(connected, name, i),
        forall|i: int| is_first_named(connected, name, i) ==> locate_name(connected, name) == Some(i),
        locate_name(connected, name) is Some <==> exists|i: int|
            0 <= i < connected.len() && crate::text::same_ignoring_case(
                (#[trigger] connected[i]).name,
                name,
            ),
{
    assert forall|i: int| is_first_named(connected, name, i) implies locate_name(connected, name)
        == Some(i) by {
        let c = choose|c: int| is_first_named(connected, name, c);
        if c < i {
            assert(!crate::text::same_ignoring_case(connected[c].name, name));
        } else if i < c {
            assert(!crate::text::same_ignoring_case(connected[i].name, name));
        }
    }
    if exists|i: int|
        0 <= i < connected.len() && crate::text::same_ignoring_case(
            (#[trigger] connected[i]).name,
            name,
        ) {
        let i = choose|i: int|
            0 <= i < connected.len() && crate::text::same_ignoring_case(
                (#[trigger] connected[i]).name,
                name,
            );
        lemma_first_named_exists(connected, name, i);
    }
}

proof fn lemma_first_named_exists(connected: Seq<OutputView>, name: Seq<char>, i: int)
    requires
        0 <= i < connected.len(),
        crate::text::same_ignoring_case(connected[i].name, name),
    ensures
        exists|f: int| is_first_named(connected, name, f),
    decreases i,
{
    if exists|k: int|
        0 <= k < i && crate::text::same_ignoring_case((#[trigger] connected[k]).name, name) {
        let k = choose|k: int|
            0 <= k < i && crate::text::same_ignoring_case((#[trigger] connected[k]).name, name);
        lemma_first_named_exists(connected, name, k);
    } else {
        assert(is_first_named(connected, name, i));
    }
}

} // verus!
