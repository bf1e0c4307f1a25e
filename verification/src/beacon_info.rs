//! Types for extensible live location message events: the locations that a beacon reports.

use vstd::prelude::*;

use crate::location::LocationContent;
use crate::relation::Reference;

verus! {

/// The content of an event that reports the location of a beacon.
#[derive(Clone, Debug)]
pub struct BeaconInfoEventContent {
    /// Information about the beacon state event this relates to.
    pub relates_to: Reference,
    /// The location info of the message.
    pub location: LocationContent,
    /// The timestamp of the event, in milliseconds since the Unix epoch.
    pub ts: Option<u64>,
}

impl BeaconInfoEventContent {
    /// Create a new `BeaconInfoEventContent` with the given relates_to, location and timestamp.
    pub fn new(relates_to: Reference, location: LocationContent, ts: Option<u64>) -> (content:
        Self)
        ensures
            content.relates_to == relates_to,
            content.location == location,
            content.ts == ts,
    {
        BeaconInfoEventContent { relates_to, location, ts }
    }
}

} // verus!
