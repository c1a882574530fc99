//! The profile selector.
//!
//! A profile can be used when every output that it names is connected. Of
//! the profiles that can be used the selector takes the one with the most
//! entries, so that a profile made for more outputs wins over one made for
//! fewer.
//!
//! Policy. Where several usable profiles have the most entries, the one whose
//! name comes first in the order of `String` is taken, so that the choice
//! never depends on the order in which the profiles were stored.

use vstd::prelude::*;
use vstd::string::*;
use crate::cfg::{desired_views, Cfgs, DesiredOutput, DesiredOutputView};
use crate::outputs::{OutputView, Outputs};
use crate::text::{
    eq_str, lemma_precedes_asymmetric, lemma_precedes_total, lemma_precedes_transitive, precedes,
    str_precedes,
};

verus! {

/// The makes and models of the connected outputs.
pub open spec fn identities(connected: Seq<OutputView>) -> Set<Seq<char>> {
    Set::new(
        |model: Seq<char>|
            exists|i: int| 0 <= i < connected.len() && (#[trigger] connected[i]).model == model,
    )
}

/// The makes and models that a profile names.
pub open spec fn wanted(profile: Seq<DesiredOutputView>) -> Set<Seq<char>> {
    Set::new(
        |model: Seq<char>|
            exists|j: int| 0 <= j < profile.len() && (#[trigger] profile[j]).name == model,
    )
}

/// A profile can be used: every output that it names is connected.
pub open spec fn is_candidate(connected: Seq<OutputView>, profile: Seq<DesiredOutputView>) -> bool {
    wanted(profile).subset_of(identities(connected))
}

/// The profile `name` is to be preferred to the profile `other`: it has more
/// entries, or as many and the name that comes first.
pub open spec fn beats(
    store: Map<Seq<char>, Seq<DesiredOutputView>>,
    name: Seq<char>,
    other: Seq<char>,
) -> bool {
    ||| store[other].len() < store[name].len()
    ||| store[other].len() == store[name].len() && precedes(name, other)
}

/// The profile `name` is the one to take: it can be used, and it is to be
/// preferred to every other profile that can be used.
pub open spec fn is_selected(
    store: Map<Seq<char>, Seq<DesiredOutputView>>,
    connected: Seq<OutputView>,
    name: Seq<char>,
) -> bool {
    &&& store.dom().contains(name)
    &&& is_candidate(connected, store[name])
    &&& forall|other: Seq<char>|
        other != name && #[trigger] store.dom().contains(other) && is_candidate(
            connected,
            store[other],
        ) ==> beats(store, name, other)
}

/// What the selector answers: the profile to take, or nothing where no
/// profile of the store can be used.
pub open spec fn selects(
    store: Map<Seq<char>, Seq<DesiredOutputView>>,
    connected: Seq<OutputView>,
    choice: Option<Seq<char>>,
) -> bool {
    match choice {
        Some(name) => is_selected(store, connected, name),
        None => forall|name: Seq<char>| #[trigger]
            store.dom().contains(name) ==> !is_candidate(connected, store[name]),
    }
}

/// The characters of a name that may be missing.
pub open spec fn choice_view(choice: Option<String>) -> Option<Seq<char>> {
    match choice {
        Some(name) => Some(name@),
        None => None,
    }
}

/// Whether an output of this make and model is connected.
pub fn has_model(connected: &Outputs, model: &str) -> (r: bool)
    ensures
        r == identities(connected@).contains(model@),
{
    let mut i: usize = 0;
    while i < connected.len()
        invariant
            i <= connected@.len(),
            forall|k: int| 0 <= k < i ==> (#[trigger] connected@[k]).model != model@,
        decreases connected@.len() - i,
    {
        if eq_str(connected.get(i).model(), model) {
            assert(connected@[i as int].model == model@);
            return true;
        }
        i += 1;
    }
    false
}

/// Whether a profile can be used with what is connected.
pub fn can_use(connected: &Outputs, profile: &Vec<DesiredOutput>) -> (r: bool)
    ensures
        r == is_candidate(connected@, desired_views(profile@)),
{
    let ghost entries = desired_views(profile@);
    let mut j: usize = 0;
    while j < profile.len()
        invariant
            j <= profile.len(),
            entries == desired_views(profile@),
            forall|k: int| 0 <= k < j ==> identities(connected@).contains((#[trigger] entries[k]).name),
        decreases profile.len() - j,
    {
        if !has_model(connected, profile[j].name()) {
            assert(wanted(entries).contains(entries[j as int].name));
            return false;
        }
        j += 1;
    }
    true
}

impl Cfgs {
    /// Picks the profile for what is connected: of the profiles that name
    /// only connected outputs the one with the most entries, and of several
    /// such the one whose name comes first. Nothing is picked exactly when
    /// every profile names an output that is not connected.
    pub fn select(&self, connected: &Outputs) -> (choice: Option<String>)
        ensures
            selects(self@, connected@, choice_view(choice)),
            choice is None <==> forall|name: Seq<char>| #[trigger]
                self@.dom().contains(name) ==> !is_candidate(connected@, self@[name]),
    {
        let n = self.len();
        let mut best: Option<usize> = None;
        let mut i: usize = 0;
        while i < n
            invariant
                i <= n,
                n == self.names().len(),
                self.well_formed(),
                match best {
                    Some(b) => {
                        &&& b < i
                        &&& is_candidate(connected@, self@[self.names()[b as int]])
                        &&& forall|k: int|
                            0 <= k < i && k != b && is_candidate(
                                connected@,
                                self@[#[trigger] self.names()[k]],
                            ) ==> beats(self@, self.names()[b as int], self.names()[k])
                    },
                    None => forall|k: int|
                        0 <= k < i ==> !is_candidate(connected@, self@[#[trigger] self.names()[k]]),
                },
            decreases n - i,
        {
            let entries = self.outputs_at(i);
            if can_use(connected, entries) {
                match best {
                    None => {
                        best = Some(i);
                    },
                    Some(b) => {
                        let held = self.outputs_at(b);
                        let ghost here = self.names()[i as int];
                        let ghost there = self.names()[b as int];
                        assert(here != there);
                        if entries.len() > held.len() || (entries.len() == held.len()
                            && str_precedes(self.name_at(i), self.name_at(b))) {
                            assert(beats(self@, here, there));
                            assert forall|k: int|
                                0 <= k < i + 1 && k != i && is_candidate(
                                    connected@,
                                    self@[#[trigger] self.names()[k]],
                                ) implies beats(self@, here, self.names()[k]) by {
                                if k != b {
                                    lemma_beats_transitive(self@, here, there, self.names()[k]);
                                }
                            }
                            best = Some(i);
                        } else {
                            proof {
                                if entries.len() == held.len() {
                                    lemma_precedes_total(here, there);
                                }
                            }
                            assert(beats(self@, there, here));
                        }
                    },
                }
            }
            i += 1;
        }
        match best {
            Some(b) => {
                let name = self.name_at(b).to_owned();
                proof {
                    assert forall|other: Seq<char>|
                        other != name@ && #[trigger] self@.dom().contains(other) && is_candidate(
                            connected@,
                            self@[other],
                        ) implies beats(self@, name@, other) by {
                        assert(self.names().contains(other));
                        let k = self.names().index_of(other);
                        assert(self.names()[k] == other);
                    }
                    assert(self.names().contains(name@));
                }
                Some(name)
            },
            None => {
                proof {
                    assert forall|name: Seq<char>| #[trigger]
                        self@.dom().contains(name) implies !is_candidate(connected@, self@[name]) by {
                        assert(self.names().contains(name));
                        let k = self.names().index_of(name);
                        assert(self.names()[k] == name);
                    }
                }
                None
            },
        }
    }
}

/// Preference carries over: what is preferred to a second profile is
/// preferred to everything that the second is preferred to.
pub proof fn lemma_beats_transitive(
    store: Map<Seq<char>, Seq<DesiredOutputView>>,
    a: Seq<char>,
    b: Seq<char>,
    c: Seq<char>,
)
    requires
        beats(store, a, b),
        beats(store, b, c),
    ensures
        beats(store, a, c),
{
    if store[b].len() == store[a].len() && store[c].len() == store[b].len() {
        lemma_precedes_transitive(a, b, c);
    }
}

/// The selector's answer is as large as can be. Whatever profile `p` of the
/// store can be used, a profile is picked, and it has at least as many
/// entries as `p`. Where `p` has more entries than every other profile that
/// can be used, `p` itself is picked.
pub proof fn lemma_selection_is_maximal(
    store: Map<Seq<char>, Seq<DesiredOutputView>>,
    connected: Seq<OutputView>,
    choice: Option<Seq<char>>,
    p: Seq<char>,
)
    requires
        selects(store, connected, choice),
        store.dom().contains(p),
        is_candidate(connected, store[p]),
    ensures
        choice is Some,
        store.dom().contains(choice->0),
        is_candidate(connected, store[choice->0]),
        store[choice->0].len() >= store[p].len(),
        (forall|other: Seq<char>|
            other != p && #[trigger] store.dom().contains(other) && is_candidate(
                connected,
                store[other],
            ) ==> store[other].len() < store[p].len()) ==> choice == Some(p),
{
}

/// Where no profile of the store can be used, nothing is picked.
pub proof fn lemma_selection_none(
    store: Map<Seq<char>, Seq<DesiredOutputView>>,
    connected: Seq<OutputView>,
    choice: Option<Seq<char>>,
)
    requires
        selects(store, connected, choice),
        forall|name: Seq<char>| #[trigger]
            store.dom().contains(name) ==> !is_candidate(connected, store[name]),
    ensures
        choice is None,
{
}

/// The selector has one answer only: the same store and the same connected
/// outputs never give two different choices.
pub proof fn lemma_selection_unique(
    store: Map<Seq<char>, Seq<DesiredOutputView>>,
    connected: Seq<OutputView>,
    first: Option<Seq<char>>,
    second: Option<Seq<char>>,
)
    requires
        selects(store, connected, first),
        selects(store, connected, second),
    ensures
        first == second,
{
    if first is Some && second is Some && first->0 != second->0 {
        lemma_precedes_asymmetric(first->0, second->0);
    }
}

} // verus!
