//! What the compositor reports of the connected outputs.
//!
//! An [`Output`] is a snapshot of one connected output, an [`Outputs`] the
//! snapshot of all of them at one moment. Both are values: a new query makes
//! new ones.

use vstd::prelude::*;
use vstd::string::*;
use crate::scale::Scale;

verus! {

/// One display mode that an output supports. `refresh` is in thousandths of
/// a hertz.
#[derive(Clone, Copy, Debug, PartialEq, Eq, Structural)]
pub struct Mode {
    pub width: u32,
    pub height: u32,
    pub refresh: u32,
}

impl Mode {
    /// The number of pixels of the mode.
    pub open spec fn area(self) -> int {
        self.width * self.height
    }

    /// Counts the pixels of the mode.
    pub fn pixels(&self) -> (a: u64)
        ensures
            a == self.area(),
    {
        let w: u64 = self.width as u64;
        let h: u64 = self.height as u64;
        assert(w * h <= 0xFFFF_FFFF * 0xFFFF_FFFF) by (nonlinear_arith)
            requires
                w <= 0xFFFF_FFFF,
                h <= 0xFFFF_FFFF,
        ;
        w * h
    }
}

/// `modes[i]` is the best mode of the list: none has more pixels, and every
/// mode before it has fewer.
pub open spec fn is_best_mode(modes: Seq<Mode>, i: int) -> bool {
    &&& 0 <= i < modes.len()
    &&& forall|k: int| 0 <= k < modes.len() ==> (#[trigger] modes[k]).area() <= modes[i].area()
    &&& forall|k: int| 0 <= k < i ==> (#[trigger] modes[k]).area() < modes[i].area()
}

/// The place of the best mode in a list that is not empty.
pub open spec fn best_mode_index(modes: Seq<Mode>) -> int {
    choose|i: int| is_best_mode(modes, i)
}

/// The resolution that an output with these modes is driven at: that of its
/// best mode, and 0 by 0 where it offers no mode at all.
pub open spec fn best_resolution(modes: Seq<Mode>) -> (u32, u32) {
    if modes.len() == 0 {
        (0u32, 0u32)
    } else {
        (modes[best_mode_index(modes)].width, modes[best_mode_index(modes)].height)
    }
}

/// A list has at most one best mode.
pub proof fn lemma_best_mode_unique(modes: Seq<Mode>, i: int, j: int)
    requires
        is_best_mode(modes, i),
        is_best_mode(modes, j),
    ensures
        i == j,
{
    if i < j {
        assert(modes[i].area() < modes[j].area());
        assert(modes[j].area() <= modes[i].area());
    } else if j < i {
        assert(modes[j].area() < modes[i].area());
        assert(modes[i].area() <= modes[j].area());
    }
}

/// The mathematical value of an [`Output`].
pub struct OutputView {
    pub name: Seq<char>,
    pub model: Seq<char>,
    pub position: (i32, i32),
    pub resolution: (u32, u32),
    pub scale: Scale,
    pub enabled: bool,
    pub modes: Seq<Mode>,
}

/// One connected output as the compositor reported it.
///
/// `name` is the connector that the compositor lists it under, `model` the make and model
/// by which stored layouts recognise it.
#[derive(Debug)]
pub struct Output {
    name: String,
    model: String,
    position: (i32, i32),
    resolution: (u32, u32),
    scale: Scale,
    enabled: bool,
    modes: Vec<Mode>,
}

impl View for Output {
    type V = OutputView;

    closed spec fn view(&self) -> OutputView {
        OutputView {
            name: self.name@,
            model: self.model@,
            position: self.position,
            resolution: self.resolution,
            scale: self.scale,
            enabled: self.enabled,
            modes: self.modes@,
        }
    }
}

impl Output {
    /// Creates a new [`Output`].
    pub fn new(
        name: String,
        model: String,
        position: (i32, i32),
        resolution: (u32, u32),
        scale: Scale,
        enabled: bool,
        modes: Vec<Mode>,
    ) -> (out: Self)
        ensures
            out@ == (OutputView {
                name: name@,
                model: model@,
                position,
                resolution,
                scale,
                enabled,
                modes: modes@,
            }),
    {
        Self { name, model, position, resolution, scale, enabled, modes }
    }

    /// The snapshot of an output from what a compositor reports of it. The
    /// make and the model, with a blank between them, are what stored layouts
    /// recognise the output by. The resolution is that of the mode that is
    /// set, and 0 by 0 where none is set; the scale is 1 where none is given.
    pub fn reported(
        name: String,
        make: &str,
        model: &str,
        position: (i32, i32),
        current_mode: Option<Mode>,
        scale: Option<Scale>,
        active: bool,
        modes: Vec<Mode>,
    ) -> (out: Self)
        ensures
            out@ == (OutputView {
                name: name@,
                model: make@ + " "@ + model@,
                position,
                resolution: match current_mode {
                    Some(mode) => (mode.width, mode.height),
                    None => (0u32, 0u32),
                },
                scale: match scale {
                    Some(scale) => scale,
                    None => Scale::one(),
                },
                enabled: active,
                modes: modes@,
            }),
    {
        let mut identity = String::new();
        identity.append(make);
        identity.append(" ");
        identity.append(model);
        assert(identity@ =~= make@ + " "@ + model@);
        let resolution: (u32, u32) = match current_mode {
            Some(mode) => (mode.width, mode.height),
            None => (0, 0),
        };
        let scale = match scale {
            Some(scale) => scale,
            None => Scale::new(1_000_000),
        };
        Self { name, model: identity, position, resolution, scale, enabled: active, modes }
    }

    /// The connector that the compositor lists the output under.
    pub fn name(&self) -> (r: &str)
        ensures
            r@ == self@.name,
    {
        self.name.as_str()
    }

    /// The make and model by which stored layouts recognise the output.
    pub fn model(&self) -> (r: &str)
        ensures
            r@ == self@.model,
    {
        self.model.as_str()
    }

    /// Where the left upper corner of the output stands.
    pub fn position(&self) -> (r: (i32, i32))
        ensures
            r == self@.position,
    {
        self.position
    }

    /// The width and height of the mode that is set, in pixels.
    pub fn resolution(&self) -> (r: (u32, u32))
        ensures
            r == self@.resolution,
    {
        self.resolution
    }

    /// The scale of the output; a compositor reports -1 for one that is off.
    pub fn scale(&self) -> (r: Scale)
        ensures
            r == self@.scale,
    {
        self.scale
    }

    /// Whether the output is switched on.
    pub fn is_enabled(&self) -> (r: bool)
        ensures
            r == self@.enabled,
    {
        self.enabled
    }

    /// The modes that the output offers, in the order of the report.
    pub fn modes(&self) -> (r: &Vec<Mode>)
        ensures
            r@ == self@.modes,
    {
        &self.modes
    }

    /// The same output, switched on.
    pub fn enabled(self) -> (out: Self)
        ensures
            out@ == (OutputView { enabled: true, ..self@ }),
    {
        Self { enabled: true, ..self }
    }

    /// The same output at another scale.
    pub fn with_scale(self, scale: Scale) -> (out: Self)
        ensures
            out@ == (OutputView { scale, ..self@ }),
    {
        Self { scale, ..self }
    }

    /// The same output, switched off.
    pub fn disabled(self) -> (out: Self)
        ensures
            out@ == (OutputView { enabled: false, ..self@ }),
    {
        Self { enabled: false, ..self }
    }

    /// The mode with the most pixels, the earliest of them where several have
    /// as many; `None` where the output offers no mode.
    pub fn best_mode(&self) -> (best: Option<&Mode>)
        ensures
            best is None <==> self@.modes.len() == 0,
            best matches Some(m) ==> is_best_mode(self@.modes, best_mode_index(self@.modes))
                && *m == self@.modes[best_mode_index(self@.modes)],
    {
        if self.modes.len() == 0 {
            return None;
        }
        let mut best: usize = 0;
        let mut i: usize = 1;
        while i < self.modes.len()
            invariant
                1 <= i <= self.modes.len(),
                is_best_mode(self.modes@.take(i as int), best as int),
            decreases self.modes.len() - i,
        {
            let here: u64 = self.modes[i].pixels();
            let top: u64 = self.modes[best].pixels();
            let ghost before = self.modes@.take(i as int);
            let ghost after = self.modes@.take(i + 1);
            if here > top {
                assert forall|k: int| 0 <= k < after.len() implies (#[trigger] after[k]).area()
                    <= after[i as int].area() by {
                    if k < i {
                        assert(before[k].area() <= before[best as int].area());
                    }
                }
                assert forall|k: int| 0 <= k < i implies (#[trigger] after[k]).area()
                    < after[i as int].area() by {
                    assert(before[k].area() <= before[best as int].area());
                }
                best = i;
            } else {
                assert forall|k: int| 0 <= k < after.len() implies (#[trigger] after[k]).area()
                    <= after[best as int].area() by {
                    if k < i {
                        assert(before[k].area() <= before[best as int].area());
                    }
                }
                assert forall|k: int| 0 <= k < best implies (#[trigger] after[k]).area()
                    < after[best as int].area() by {
                    assert(before[k].area() < before[best as int].area());
                }
            }
            i += 1;
        }
        proof {
            assert(self.modes@.take(i as int) =~= self.modes@);
            lemma_best_mode_unique(self@.modes, best as int, best_mode_index(self@.modes));
        }
        Some(&self.modes[best])
    }
}

impl Clone for Output {
    fn clone(&self) -> (out: Self)
        ensures
            out@ == self@,
    {
        let mut modes: Vec<Mode> = Vec::new();
        let mut i: usize = 0;
        while i < self.modes.len()
            invariant
                i <= self.modes.len(),
                modes@ == self.modes@.take(i as int),
            decreases self.modes.len() - i,
        {
            modes.push(self.modes[i]);
            i += 1;
            assert(modes@ =~= self.modes@.take(i as int));
        }
        assert(modes@ =~= self.modes@);
        Self {
            name: self.name.clone(),
            model: self.model.clone(),
            position: self.position,
            resolution: self.resolution,
            scale: self.scale,
            enabled: self.enabled,
            modes,
        }
    }
}

impl PartialEq for Output {
    fn eq(&self, other: &Self) -> (r: bool) {
        if self.name != other.name || self.model != other.model {
            return false;
        }
        if self.position.0 != other.position.0 || self.position.1 != other.position.1 {
            return false;
        }
        if self.resolution.0 != other.resolution.0 || self.resolution.1 != other.resolution.1 {
            return false;
        }
        if self.scale.millionths != other.scale.millionths || self.enabled != other.enabled {
            return false;
        }
        if self.modes.len() != other.modes.len() {
            return false;
        }
        let mut i: usize = 0;
        while i < self.modes.len()
            invariant
                i <= self.modes.len(),
                self.modes.len() == other.modes.len(),
                self.modes@.take(i as int) == other.modes@.take(i as int),
            decreases self.modes.len() - i,
        {
            let a: Mode = self.modes[i];
            let b: Mode = other.modes[i];
            if a.width != b.width || a.height != b.height || a.refresh != b.refresh {
                return false;
            }
            i += 1;
            assert(self.modes@.take(i as int) =~= self.modes@.take(i - 1).push(a));
            assert(other.modes@.take(i as int) =~= other.modes@.take(i - 1).push(b));
        }
        assert(self.modes@ =~= self.modes@.take(i as int));
        assert(other.modes@ =~= other.modes@.take(i as int));
        true
    }
}

impl vstd::std_specs::cmp::PartialEqSpecImpl for Output {
    open spec fn obeys_eq_spec() -> bool {
        true
    }

    open spec fn eq_spec(&self, other: &Self) -> bool {
        self@ == other@
    }
}

/// Everything that is connected, in the order in which the compositor lists
/// it.
#[derive(Debug)]
pub struct Outputs(Vec<Output>);

/// The values of a list of outputs.
pub open spec fn views_of(outputs: Seq<Output>) -> Seq<OutputView> {
    outputs.map_values(|o: Output| o@)
}

impl View for Outputs {
    type V = Seq<OutputView>;

    closed spec fn view(&self) -> Seq<OutputView> {
        views_of(self.0@)
    }
}

impl Outputs {
    /// The snapshot that holds `outputs`, in their order.
    pub fn new(outputs: Vec<Output>) -> (out: Self)
        ensures
            out@ == views_of(outputs@),
    {
        Self(outputs)
    }

    /// The snapshot that holds a copy of each of `outputs`, in their order.
    pub fn from_slice(outputs: &[Output]) -> (out: Self)
        ensures
            out@ == views_of(outputs@),
    {
        let mut vec: Vec<Output> = Vec::new();
        let mut i: usize = 0;
        while i < outputs.len()
            invariant
                i <= outputs.len(),
                views_of(vec@) == views_of(outputs@).take(i as int),
            decreases outputs.len() - i,
        {
            let ghost before = vec@;
            let copy = outputs[i].clone();
            vec.push(copy);
            i += 1;
            assert(views_of(vec@) =~= views_of(before).push(copy@));
            assert(views_of(vec@) =~= views_of(outputs@).take(i as int));
        }
        assert(views_of(vec@) =~= views_of(outputs@));
        Self(vec)
    }

    /// How many outputs are connected.
    pub fn len(&self) -> (n: usize)
        ensures
            n == self@.len(),
    {
        self.0.len()
    }

    /// The output at place `i` of the snapshot.
    pub fn get(&self, i: usize) -> (out: &Output)
        requires
            i < self@.len(),
        ensures
            out@ == self@[i as int],
    {
        &self.0[i]
    }
}

impl PartialEq for Outputs {
    fn eq(&self, other: &Self) -> (r: bool) {
        if self.0.len() != other.0.len() {
            return false;
        }
        let mut i: usize = 0;
        while i < self.0.len()
            invariant
                i <= self.0.len(),
                self.0.len() == other.0.len(),
                self@.take(i as int) == other@.take(i as int),
            decreases self.0.len() - i,
        {
            if self.0[i] != other.0[i] {
                assert(self@[i as int] != other@[i as int]);
                return false;
            }
            i += 1;
            assert(self@.take(i as int) =~= self@.take(i - 1).push(self@[i - 1]));
            assert(other@.take(i as int) =~= other@.take(i - 1).push(other@[i - 1]));
        }
        assert(self@ =~= self@.take(i as int));
        assert(other@ =~= other@.take(i as int));
        true
    }
}

impl vstd::std_specs::cmp::PartialEqSpecImpl for Outputs {
    open spec fn obeys_eq_spec() -> bool {
        true
    }

    open spec fn eq_spec(&self, other: &Self) -> bool {
        self@ == other@
    }
}

} // verus!
