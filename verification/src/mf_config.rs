use vstd::prelude::*;

verus! {

/// The immutable runtime configuration: output directories for the two
/// report kinds, the coastal region and zone the reports cover, whether the
/// secondary report is wanted, whether output is prettified, and the cycle
/// interval as an ISO-8601 duration string.
pub struct MFConfig {
    pub bmspath: String,
    pub bmrpath: String,
    pub region: u8,
    pub zone: u8,
    pub want_bmr: bool,
    pub pretty: bool,
    pub run_every: String,
}

} // verus!
