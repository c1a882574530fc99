//! Listings for people to read.
//!
//! The listing of the connected outputs has one line for each output: its
//! name, where it stands, its resolution, its scale and its make and model,
//! and in the long form also every mode that it offers. The names are padded
//! so that the columns line up. The listing of the profile store has each
//! profile under its name, one entry to the line.

use vstd::prelude::*;
use vstd::string::*;
use vstd::utf8::encode_utf8;
use crate::cfg::{Cfgs, DesiredOutput, DesiredOutputView};
use crate::outputs::{Mode, Output, OutputView, Outputs};
use crate::scale::{lemma_thousand_is_power_of_ten, Scale};
use crate::text::{
    decimal, fixed_point, push_decimal, push_fixed_point, push_right_aligned, push_signed_decimal,
    push_spaces, right_aligned, signed_decimal, spaces,
};

verus! {

// ---------------------------------------------------------------------------
// Connected outputs
// ---------------------------------------------------------------------------

/// How many bytes a name takes in UTF-8. Names are padded by this length.
pub open spec fn byte_len(name: Seq<char>) -> nat {
    encode_utf8(name).len()
}

/// A resolution as `WxH`.
pub open spec fn resolution_text(resolution: (u32, u32)) -> Seq<char> {
    decimal(resolution.0 as nat) + "x"@ + decimal(resolution.1 as nat)
}

/// One mode in the long form of a line: `, WxH (R Hz)`, with the refresh
/// rate in hertz.
pub open spec fn mode_text(mode: Mode) -> Seq<char> {
    ", "@ + decimal(mode.width as nat) + "x"@ + decimal(mode.height as nat) + " ("@ + fixed_point(
        mode.refresh as nat,
        1000,
    ) + " Hz)"@
}

/// The first `n` modes of a list, one after the other.
pub open spec fn modes_text(modes: Seq<Mode>, n: int) -> Seq<char>
    decreases n,
{
    if n <= 0 {
        Seq::empty()
    } else {
        modes_text(modes, n - 1) + mode_text(modes[n - 1])
    }
}

/// How many blanks stand between the colon behind a name and the next
/// column, where names are padded to `name_pad` bytes: always one, and as
/// many more as the name is short of `name_pad`.
pub open spec fn gap(name: Seq<char>, name_pad: nat) -> nat {
    if byte_len(name) >= name_pad {
        1
    } else {
        (name_pad - byte_len(name) + 1) as nat
    }
}

/// The line of one output.
pub open spec fn line_text(output: OutputView, verbose: bool, name_pad: nat) -> Seq<char> {
    output.name + ":"@ + spaces(gap(output.name, name_pad)) + "position: "@ + right_aligned(
        signed_decimal(output.position.0 as int),
        4,
    ) + "/"@ + signed_decimal(output.position.1 as int) + ", resolution: "@ + right_aligned(
        resolution_text(output.resolution),
        9,
    ) + ", scale: "@ + output.scale.tenths_spec() + ", model: "@ + output.model + if verbose {
        ", modes: "@ + modes_text(output.modes, output.modes.len() as int)
    } else {
        Seq::empty()
    }
}

/// The length of the longest name among the first `n` outputs, in bytes.
pub open spec fn longest_name(outputs: Seq<OutputView>, n: int) -> nat
    decreases n,
{
    if n <= 0 {
        0
    } else if byte_len(outputs[n - 1].name) > longest_name(outputs, n - 1) {
        byte_len(outputs[n - 1].name)
    } else {
        longest_name(outputs, n - 1)
    }
}

/// The lines of the first `n` outputs, each ended by a line feed.
pub open spec fn lines_text(outputs: Seq<OutputView>, verbose: bool, name_pad: nat, n: int) -> Seq<
    char,
>
    decreases n,
{
    if n <= 0 {
        Seq::empty()
    } else {
        lines_text(outputs, verbose, name_pad, n - 1) + line_text(outputs[n - 1], verbose, name_pad)
            + "\n"@
    }
}

/// The listing of a snapshot: the line of every output, the names padded to
/// the longest of them.
pub open spec fn listing_text(outputs: Seq<OutputView>, verbose: bool) -> Seq<char> {
    lines_text(
        outputs,
        verbose,
        longest_name(outputs, outputs.len() as int),
        outputs.len() as int,
    )
}

fn push_mode(out: &mut String, mode: &Mode)
    ensures
        final(out)@ == old(out)@ + mode_text(*mode),
{
    out.append(", ");
    push_decimal(out, mode.width as u128);
    out.append("x");
    push_decimal(out, mode.height as u128);
    out.append(" (");
    proof {
        lemma_thousand_is_power_of_ten();
    }
    push_fixed_point(out, mode.refresh as u64, 1000);
    out.append(" Hz)");
    assert(out@ =~= old(out)@ + mode_text(*mode));
}

impl Output {
    /// The line of this output in a listing whose names are padded to
    /// `name_pad` bytes; with `verbose`, the modes are listed too.
    pub fn display(&self, verbose: bool, name_pad: usize) -> (out: String)
        ensures
            out@ == line_text(self@, verbose, name_pad as nat),
    {
        let mut out = String::new();
        out.append(self.name());
        out.append(":");
        let len = self.name().as_bytes().len();
        if len < name_pad {
            push_spaces(&mut out, name_pad - len);
        }
        proof {
            reveal_strlit(" ");
        }
        out.append(" ");
        assert(out@ =~= self@.name + ":"@ + spaces(gap(self@.name, name_pad as nat)));
        out.append("position: ");
        let mut x = String::new();
        push_signed_decimal(&mut x, self.position().0 as i64);
        push_right_aligned(&mut out, x.as_str(), 4);
        out.append("/");
        push_signed_decimal(&mut out, self.position().1 as i64);
        out.append(", resolution: ");
        let mut resolution = String::new();
        push_decimal(&mut resolution, self.resolution().0 as u128);
        resolution.append("x");
        push_decimal(&mut resolution, self.resolution().1 as u128);
        assert(resolution@ =~= resolution_text(self@.resolution));
        push_right_aligned(&mut out, resolution.as_str(), 9);
        out.append(", scale: ");
        let scale = self.scale().text_tenths();
        out.append(scale.as_str());
        out.append(", model: ");
        out.append(self.model());
        let ghost head = out@;
        if verbose {
            out.append(", modes: ");
            let modes = self.modes();
            let mut i: usize = 0;
            while i < modes.len()
                invariant
                    i <= modes.len(),
                    modes@ == self@.modes,
                    out@ == head + ", modes: "@ + modes_text(self@.modes, i as int),
                decreases modes.len() - i,
            {
                push_mode(&mut out, &modes[i]);
                i += 1;
                assert(out@ =~= head + ", modes: "@ + modes_text(self@.modes, i as int));
            }
        }
        assert(out@ =~= line_text(self@, verbose, name_pad as nat));
        out
    }
}

impl Outputs {
    /// The length of the longest name in the snapshot, in bytes.
    pub fn longest_name(&self) -> (len: usize)
        ensures
            len == longest_name(self@, self@.len() as int),
    {
        let mut len: usize = 0;
        let mut i: usize = 0;
        while i < self.len()
            invariant
                i <= self@.len(),
                len == longest_name(self@, i as int),
            decreases self@.len() - i,
        {
            let here = self.get(i).name().as_bytes().len();
            if here > len {
                len = here;
            }
            i += 1;
        }
        len
    }

    /// The listing of the snapshot; with `verbose`, in the long form.
    pub fn display(&self, verbose: bool) -> (out: String)
        ensures
            out@ == listing_text(self@, verbose),
    {
        let name_pad = self.longest_name();
        let mut out = String::new();
        let mut i: usize = 0;
        while i < self.len()
            invariant
                i <= self@.len(),
                out@ == lines_text(self@, verbose, name_pad as nat, i as int),
            decreases self@.len() - i,
        {
            let line = self.get(i).display(verbose, name_pad);
            out.append(line.as_str());
            out.append("\n");
            i += 1;
            assert(out@ =~= lines_text(self@, verbose, name_pad as nat, i as int));
        }
        out
    }
}

// ---------------------------------------------------------------------------
// Stored profiles
// ---------------------------------------------------------------------------

/// The scale that an entry gives its output: the one it names, or 1.
pub open spec fn scale_of(entry: DesiredOutputView) -> Scale {
    match entry.scale {
        Some(scale) => scale,
        None => Scale::one(),
    }
}

/// One entry of a profile: `NAME (scale: S)`.
pub open spec fn entry_text(entry: DesiredOutputView) -> Seq<char> {
    entry.name + " (scale: "@ + scale_of(entry).text_spec() + ")"@
}

/// The first `n` entries of a profile, each on its own indented line.
pub open spec fn entries_text(entries: Seq<DesiredOutputView>, n: int) -> Seq<char>
    decreases n,
{
    if n <= 0 {
        Seq::empty()
    } else if n == 1 {
        entry_text(entries[0])
    } else {
        entries_text(entries, n - 1) + "\n  "@ + entry_text(entries[n - 1])
    }
}

/// One profile: its name and a colon, and below them its entries.
pub open spec fn profile_text(name: Seq<char>, entries: Seq<DesiredOutputView>) -> Seq<char> {
    name + ":\n  "@ + entries_text(entries, entries.len() as int) + "\n"@
}

/// The first `n` of the profiles `names` of a store, one after the other.
pub open spec fn profiles_text(
    names: Seq<Seq<char>>,
    store: Map<Seq<char>, Seq<DesiredOutputView>>,
    n: int,
) -> Seq<char>
    decreases n,
{
    if n <= 0 {
        Seq::empty()
    } else {
        profiles_text(names, store, n - 1) + profile_text(names[n - 1], store[names[n - 1]])
    }
}

impl DesiredOutput {
    /// The entry as it stands in a listing.
    pub fn display(&self) -> (out: String)
        ensures
            out@ == entry_text(self@),
    {
        let mut out = String::new();
        out.append(self.name());
        out.append(" (scale: ");
        let scale = match self.scale() {
            Some(scale) => scale,
            None => Scale::new(1_000_000),
        };
        let text = scale.text();
        out.append(text.as_str());
        out.append(")");
        assert(out@ =~= entry_text(self@));
        out
    }
}

impl Cfgs {
    /// The listing of the store: every profile, in the order in which the
    /// profiles came into the store.
    pub fn display(&self) -> (out: String)
        ensures
            out@ == profiles_text(self.names(), self@, self.names().len() as int),
    {
        let mut out = String::new();
        let n = self.len();
        let mut i: usize = 0;
        while i < n
            invariant
                i <= n,
                n == self.names().len(),
                out@ == profiles_text(self.names(), self@, i as int),
            decreases n - i,
        {
            let ghost before = out@;
            let ghost name = self.names()[i as int];
            let entries = self.outputs_at(i);
            out.append(self.name_at(i));
            out.append(":\n  ");
            let ghost head = out@;
            let mut j: usize = 0;
            while j < entries.len()
                invariant
                    j <= entries.len(),
                    out@ == head + entries_text(crate::cfg::desired_views(entries@), j as int),
                decreases entries.len() - j,
            {
                if j > 0 {
                    out.append("\n  ");
                }
                let text = entries[j].display();
                out.append(text.as_str());
                j += 1;
                assert(out@ =~= head + entries_text(crate::cfg::desired_views(entries@), j as int));
            }
            out.append("\n");
            i += 1;
            assert(out@ =~= before + profile_text(name, self@[name]));
        }
        out
    }
}

} // verus!
