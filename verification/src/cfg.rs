//! Stored layouts.
//!
//! A layout, here called a profile, is a list of the outputs that it wants
//! switched on, from left to right. The store, [`Cfgs`], holds the profiles
//! under their names.

use vstd::prelude::*;
use vstd::string::*;
use crate::scale::Scale;
use crate::text::eq_str;

verus! {

/// The mathematical value of a [`DesiredOutput`].
pub struct DesiredOutputView {
    pub name: Seq<char>,
    pub scale: Option<Scale>,
}

/// One entry of a profile: the make and model of an output that the profile
/// wants switched on, and the scale to give it, 1 where none is named.
///
/// The name is never empty and a scale that is named is greater than zero.
#[derive(Debug, PartialEq, Eq)]
pub struct DesiredOutput {
    name: String,
    scale: Option<Scale>,
}

/// What [`DesiredOutput::new`] accepts.
pub open spec fn acceptable(name: Seq<char>, scale: Option<Scale>) -> bool {
    &&& name.len() > 0
    &&& scale matches Some(s) ==> s.millionths > 0
}

impl View for DesiredOutput {
    type V = DesiredOutputView;

    closed spec fn view(&self) -> DesiredOutputView {
        DesiredOutputView { name: self.name@, scale: self.scale }
    }
}

impl DesiredOutput {
    #[verifier::type_invariant]
    spec fn inv(self) -> bool {
        acceptable(self.name@, self.scale)
    }

    /// The entry for the output called `name`, or nothing where the name is
    /// empty or the scale is not greater than zero.
    pub fn new(name: String, scale: Option<Scale>) -> (out: Option<Self>)
        ensures
            out is Some <==> acceptable(name@, scale),
            out matches Some(d) ==> d@ == (DesiredOutputView { name: name@, scale }),
    {
        if name.as_str().is_empty() {
            return None;
        }
        match scale {
            Some(s) => {
                if s.millionths <= 0 {
                    return None;
                }
            },
            None => {},
        }
        Some(Self { name, scale })
    }

    /// The make and model that the entry asks for.
    pub fn name(&self) -> (r: &str)
        ensures
            r@ == self@.name,
            acceptable(self@.name, self@.scale),
    {
        proof {
            use_type_invariant(self);
        }
        self.name.as_str()
    }

    /// The scale that the entry names, if it names one.
    pub fn scale(&self) -> (r: Option<Scale>)
        ensures
            r == self@.scale,
            acceptable(self@.name, self@.scale),
    {
        proof {
            use_type_invariant(self);
        }
        self.scale
    }
}

impl Clone for DesiredOutput {
    fn clone(&self) -> (out: Self)
        ensures
            out@ == self@,
    {
        proof {
            use_type_invariant(self);
        }
        Self { name: self.name.clone(), scale: self.scale }
    }
}

/// The values of a list of entries.
pub open spec fn desired_views(entries: Seq<DesiredOutput>) -> Seq<DesiredOutputView> {
    entries.map_values(|d: DesiredOutput| d@)
}

#[derive(Debug)]
struct Profile {
    name: String,
    outputs: Vec<DesiredOutput>,
}

/// The profile store: a map from the name of a profile to its entries.
#[derive(Debug)]
pub struct Cfgs {
    profiles: Vec<Profile>,
}

impl View for Cfgs {
    type V = Map<Seq<char>, Seq<DesiredOutputView>>;

    closed spec fn view(&self) -> Map<Seq<char>, Seq<DesiredOutputView>> {
        Map::new(
            |k: Seq<char>| self.names().contains(k),
            |k: Seq<char>| desired_views(self.profiles@[self.names().index_of(k)].outputs@),
        )
    }
}

impl Cfgs {
    #[verifier::type_invariant]
    spec fn inv(self) -> bool {
        self.names().no_duplicates()
    }

    /// The names of the profiles, in the order in which they came into the
    /// store.
    pub closed spec fn names(&self) -> Seq<Seq<char>> {
        self.profiles@.map_values(|p: Profile| p.name@)
    }

    /// The names and the map agree: no name stands twice, and the names are
    /// the keys of the map.
    pub open spec fn well_formed(&self) -> bool {
        &&& self.names().no_duplicates()
        &&& forall|k: Seq<char>| self@.dom().contains(k) <==> self.names().contains(k)
    }

    /// The store without any profile.
    pub fn new() -> (out: Self)
        ensures
            out@ == Map::<Seq<char>, Seq<DesiredOutputView>>::empty(),
            out.names() == Seq::<Seq<char>>::empty(),
    {
        let out = Self { profiles: Vec::new() };
        assert(out@ =~= Map::<Seq<char>, Seq<DesiredOutputView>>::empty());
        out
    }

    /// How many profiles the store holds.
    pub fn len(&self) -> (n: usize)
        ensures
            n == self.names().len(),
            self.well_formed(),
    {
        proof {
            use_type_invariant(self);
        }
        self.profiles.len()
    }

    /// The name of the profile at place `i`.
    pub(crate) fn name_at(&self, i: usize) -> (r: &str)
        requires
            i < self.names().len(),
        ensures
            r@ == self.names()[i as int],
    {
        self.profiles[i].name.as_str()
    }

    /// The entries of the profile at place `i`.
    pub(crate) fn outputs_at(&self, i: usize) -> (r: &Vec<DesiredOutput>)
        requires
            i < self.names().len(),
        ensures
            self@.dom().contains(self.names()[i as int]),
            desired_views(r@) == self@[self.names()[i as int]],
    {
        proof {
            use_type_invariant(self);
            self.lemma_index_of(i as int);
        }
        &self.profiles[i].outputs
    }

    proof fn lemma_index_of(&self, i: int)
        requires
            self.names().no_duplicates(),
            0 <= i < self.names().len(),
        ensures
            self.names().contains(self.names()[i]),
            self.names().index_of(self.names()[i]) == i,
    {
        let k = self.names()[i];
        assert(self.names().contains(k));
        let j = self.names().index_of(k);
        assert(self.names()[j] == k);
    }

    fn position(&self, key: &str) -> (r: Option<usize>)
        ensures
            self.names().no_duplicates(),
            match r {
                Some(i) => i < self.names().len() && self.names()[i as int] == key@,
                None => !self.names().contains(key@),
            },
    {
        proof {
            use_type_invariant(self);
        }
        let mut i: usize = 0;
        while i < self.profiles.len()
            invariant
                i <= self.profiles.len(),
                self.names().no_duplicates(),
                forall|k: int| 0 <= k < i ==> self.names()[k] != key@,
            decreases self.profiles.len() - i,
        {
            if eq_str(self.profiles[i].name.as_str(), key) {
                return Some(i);
            }
            i += 1;
        }
        None
    }

    /// The entries of the profile called `key`, if the store has it.
    pub fn find(&self, key: &str) -> (r: Option<&Vec<DesiredOutput>>)
        ensures
            r is Some <==> self@.dom().contains(key@),
            r matches Some(entries) ==> desired_views(entries@) == self@[key@],
    {
        match self.position(key) {
            Some(i) => Some(self.outputs_at(i)),
            None => None,
        }
    }

    /// Puts the profile `outputs` into the store under `name`, in place of
    /// the profile that had this name, if there was one.
    pub fn insert(&mut self, name: String, outputs: Vec<DesiredOutput>)
        ensures
            final(self)@ == old(self)@.insert(name@, desired_views(outputs@)),
            final(self).names() == if old(self).names().contains(name@) {
                old(self).names()
            } else {
                old(self).names().push(name@)
            },
    {
        let ghost entries = desired_views(outputs@);
        let ghost before_names = self.names();
        let ghost before = self@;
        let found = self.position(name.as_str());
        let mut profiles: Vec<Profile> = Vec::new();
        core::mem::swap(&mut profiles, &mut self.profiles);
        let ghost held = profiles@;
        match found {
            Some(i) => {
                profiles.set(i, Profile { name, outputs });
                assert(profiles@.map_values(|p: Profile| p.name@) =~= before_names);
            },
            None => {
                profiles.push(Profile { name, outputs });
                assert(profiles@.map_values(|p: Profile| p.name@) =~= before_names.push(name@));
            },
        }
        core::mem::swap(&mut profiles, &mut self.profiles);
        proof {
            let after = before.insert(name@, entries);
            assert forall|k: Seq<char>| after.dom().contains(k) implies self@.dom().contains(k) by {
                if k != name@ {
                    let j = before_names.index_of(k);
                    assert(self.names()[j] == k);
                } else if found is None {
                    assert(self.names()[before_names.len() as int] == k);
                }
            }
            assert forall|k: Seq<char>| self@.dom().contains(k) implies after.dom().contains(k)
                && #[trigger] self@[k] == after[k] by {
                let j = self.names().index_of(k);
                assert(self.names()[j] == k);
                if k != name@ {
                    assert(before_names[j] == k);
                    let j0 = before_names.index_of(k);
                    assert(before_names[j0] == k);
                    assert(held[j] == self.profiles@[j]);
                }
            }
            assert(self@ =~= after);
        }
    }
}

} // verus!
