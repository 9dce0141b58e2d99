//! Plain parts of the live-status document.
//!
//! The live-status endpoint is consumed read-only and never persisted;
//! only its per-facility report areas are plain enough to model here.
//! The surrounding entries carry floating-point geo-positions and
//! transport-level timestamps, and stay outside the library.

use vstd::prelude::*;

verus! {

/// One reporting area of a facility in the live-status document.
#[derive(Clone, Debug, PartialEq, Eq)]
pub struct ReportArea {
    pub id: String,
    pub ards_network_member: String,
    pub name: String,
    pub treatment_focus_l1: Option<String>,
    pub treatment_focus_l2: Option<String>,
    pub treatment_focus_l3: Option<String>,
}

} // verus!
