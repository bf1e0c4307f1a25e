//! Types for the `org.matrix.msc3489.beacon.end` event, the unstable version of `m.beacon.end`.

use vstd::prelude::*;

use crate::relation::Reference;

verus! {

/// The payload for an unstable beacon end event.
///
/// This type can be generated from the unstable beacon start and beacon response events with
/// `OriginalSyncUnstableBeaconStartEvent::compile_results()`.
#[derive(Clone, Debug)]
pub struct UnstableBeaconEndEventContent {
    /// The text representation of the results.
    pub text: String,
    /// The beacon end content.
    pub beacon_end: UnstableBeaconEndContentBlock,
    /// Information about the beacon start event this responds to.
    pub relates_to: Reference,
}

impl UnstableBeaconEndEventContent {
    /// Creates a new `UnstableBeaconEndEventContent` with the given fallback representation and
    /// that responds to the given beacon start event ID.
    pub fn new(text: String, beacon_start_id: String) -> (content: Self)
        ensures
            content.text@ == text@,
            content.relates_to.event_id@ == beacon_start_id@,
    {
        UnstableBeaconEndEventContent {
            text,
            beacon_end: UnstableBeaconEndContentBlock {  },
            relates_to: Reference::new(beacon_start_id),
        }
    }
}

/// A block for the results of a beacon.
///
/// This is currently an empty struct.
#[derive(Clone, Debug, Default)]
pub struct UnstableBeaconEndContentBlock {}

} // verus!
