//! Layout and rendering of a terminal system-information panel.
//!
//! The library turns collected metrics into placed, styled lines: gauges
//! coloured by tier (`gauge`), label/value lines aligned on one separator
//! column (`align`), placement in a box or as a stream (`layout`), the
//! challenge countdown (`challenge`) and the whole screen (`compose`). The
//! `metrics` module holds what is computed from raw system readings, and
//! `config` the settings of a run. Collecting the readings, reading the
//! settings file and writing to the terminal are left to the caller.
use vstd::prelude::*;

pub mod align;
pub mod challenge;
pub mod compose;
pub mod config;
pub mod gauge;
pub mod layout;
pub mod metrics;
pub mod system_info;
pub mod text;

verus! {

} // verus!
