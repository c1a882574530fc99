//! Layout engine for the outputs of a Wayland compositor.
//!
//! The engine knows what is connected ([`Outputs`]), what layouts are stored
//! ([`Cfgs`]), which stored layout fits best ([`Cfgs::select`]), and which
//! commands bring a layout about ([`Outputs::set_models`],
//! [`Outputs::set_by_name`], [`Applicator`]). It does not talk to the
//! compositor itself: it is handed snapshots and hands out commands.

pub mod activate;
pub mod apply;
pub mod cfg;
pub mod daemon;
pub mod laws;
pub mod outputs;
pub mod plan;
pub mod scale;
pub mod select;
pub mod show;
pub mod text;

pub use crate::activate::{activate_manual, activate_profile, CoreError};
pub use crate::apply::{Applicator, ApplyError};
pub use crate::cfg::{Cfgs, DesiredOutput};
pub use crate::daemon::{DaemonState, Step};
pub use crate::outputs::{Mode, Output, Outputs};
pub use crate::plan::{OutputAction, PlanError};
pub use crate::scale::Scale;
