//! Types for the `org.matrix.msc3672.beacon_info` state event.

use vstd::prelude::*;

use crate::location::AssetContent;
use crate::time::now;
use crate::uint::{uint_add, uint_from_u128, MAX_SAFE_UINT};

verus! {

/// `BeaconInfoEventContent` is a struct that represents the content of a beacon_info state
/// event. It contains information about a live location sharing event.
#[derive(Clone, Debug)]
pub struct BeaconInfoEventContent {
    /// The description of the location.
    ///
    /// It should be used to label the location on a map.
    pub description: Option<String>,
    /// `live` is a boolean that should be true when a user starts sharing location.
    pub live: bool,
    /// `ts` is the timestamp of the event, in milliseconds since the Unix epoch.
    pub ts: Option<u64>,
    /// `timeout` represents the length of time in milliseconds that the location
    /// will be live. So the location will stop being shared at `ts + timeout` milliseconds
    /// since the epoch.
    pub timeout: u64,
    /// `asset` is an `AssetContent` that this message refers to.
    pub asset: AssetContent,
}

impl BeaconInfoEventContent {
    /// Whether the end of the sharing can be computed: there is a timestamp, and neither it
    /// nor the timeout nor their sum is beyond `MAX_SAFE_UINT`.
    pub open spec fn has_end(&self) -> bool {
        &&& self.ts matches Some(ts) && ts <= MAX_SAFE_UINT && ts + self.timeout <= MAX_SAFE_UINT
    }

    /// What `is_live` answers at the time `now`.
    pub open spec fn spec_is_live_at(&self, now: u64) -> bool {
        self.live && self.ts->0 + self.timeout < now
    }

    /// Creates a new `BeaconInfoEventContent` with the given description and timeout, in
    /// milliseconds. It is not live and has no timestamp.
    pub fn new(description: Option<String>, timeout: u64) -> (content: Self)
        ensures
            content.description == description,
            !content.live,
            content.ts is None,
            content.timeout == timeout,
            content.asset.type_ == crate::location::AssetType::Self_,
    {
        BeaconInfoEventContent {
            description,
            live: false,
            ts: None,
            timeout,
            asset: AssetContent::default(),
        }
    }

    /// starts the beacon being live.
    pub fn start(&mut self)
        ensures
            final(self).live,
            final(self).description == old(self).description,
            final(self).ts == old(self).ts,
            final(self).timeout == old(self).timeout,
            final(self).asset == old(self).asset,
    {
        self.live = true;
    }

    /// Stops the beacon from being live.
    pub fn stop(&mut self)
        ensures
            !final(self).live,
            final(self).description == old(self).description,
            final(self).ts == old(self).ts,
            final(self).timeout == old(self).timeout,
            final(self).asset == old(self).asset,
    {
        self.live = false;
    }

    /// Compares the current time with the beacon's start time plus its timeout.
    ///
    /// Returns `true` if the beacon is marked as live and the current time is greater than the
    /// beacon's start time plus its timeout, and `false` otherwise. A beacon that is marked as
    /// live must have a timestamp.
    pub fn is_live(&self) -> (live: bool)
        requires
            self.live ==> self.has_end(),
        ensures
            exists|now: u64| now <= MAX_SAFE_UINT && live == self.spec_is_live_at(now),
            !self.live ==> !live,
    {
        // The current time is only asked for where the answer depends on it.
        if self.live {
            let current = now();
            let live = self.is_live_at(current);
            assert(current <= MAX_SAFE_UINT && live == self.spec_is_live_at(current));
            live
        } else {
            assert(0 <= MAX_SAFE_UINT && !self.spec_is_live_at(0));
            false
        }
    }

    /// What `is_live` answers at the time `now`, in milliseconds since the Unix epoch.
    pub fn is_live_at(&self, now: u64) -> (live: bool)
        requires
            self.live ==> self.has_end(),
        ensures
            live == self.spec_is_live_at(now),
    {
        if !self.live {
            return false;
        }
        match (self.ts, uint_from_u128(self.timeout as u128)) {
            (Some(ts), Some(timeout)) => uint_add(ts, timeout) < now,
            _ => false,
        }
    }
}

} // verus!
