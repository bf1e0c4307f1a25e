//! Types for the `org.matrix.msc3489.beacon.response` event, the unstable version of
//! `m.beacon.response`.

use vstd::prelude::*;

use crate::beacon::unstable_start::UnstableBeaconStartContentBlock;
use crate::beacon::{
    str_views, valid_selections, validate_selections, BeaconResponseData, Response,
};
use crate::ordered::views;
use crate::relation::Reference;

verus! {

/// The payload for an unstable beacon response event.
#[derive(Clone, Debug)]
pub struct UnstableBeaconResponseEventContent {
    /// The response's content.
    pub beacon_response: UnstableBeaconResponseContentBlock,
    /// Information about the beacon start event this responds to.
    pub relates_to: Reference,
}

impl UnstableBeaconResponseEventContent {
    /// Creates a new `UnstableBeaconResponseEventContent` that responds to the given beacon
    /// start event ID, with the given answers.
    pub fn new(answers: Vec<String>, beacon_start_id: String) -> (content: Self)
        ensures
            content.beacon_response.answers == answers,
            content.relates_to.event_id@ == beacon_start_id@,
    {
        UnstableBeaconResponseEventContent {
            beacon_response: UnstableBeaconResponseContentBlock::new(answers),
            relates_to: Reference::new(beacon_start_id),
        }
    }
}

/// An unstable beacon response event as it comes from a sync, where the room is known from the
/// context.
#[derive(Clone, Debug)]
pub struct OriginalSyncUnstableBeaconResponseEvent {
    /// Data specific to the event type.
    pub content: UnstableBeaconResponseEventContent,
    /// The globally unique identifier of the event.
    pub event_id: String,
    /// The fully-qualified ID of the user who sent this event.
    pub sender: String,
    /// Timestamp on the originating homeserver when this event was sent, in milliseconds since
    /// the Unix epoch.
    pub origin_server_ts: u64,
}

impl OriginalSyncUnstableBeaconResponseEvent {
    /// Get the data from this response necessary to compile beacon results.
    pub fn data(&self) -> (data: BeaconResponseData<'_>)
        ensures
            data@ == (Response {
                sender: self.sender@,
                sent_at: self.origin_server_ts,
                selections: views(self.content.beacon_response.answers@),
            }),
    {
        BeaconResponseData {
            sender: self.sender.as_str(),
            origin_server_ts: self.origin_server_ts,
            selections: self.content.beacon_response.answers.as_slice(),
        }
    }
}

/// An unstable beacon response event with the room it was sent to.
#[derive(Clone, Debug)]
pub struct OriginalUnstableBeaconResponseEvent {
    /// Data specific to the event type.
    pub content: UnstableBeaconResponseEventContent,
    /// The globally unique identifier of the event.
    pub event_id: String,
    /// The fully-qualified ID of the user who sent this event.
    pub sender: String,
    /// Timestamp on the originating homeserver when this event was sent, in milliseconds since
    /// the Unix epoch.
    pub origin_server_ts: u64,
    /// The ID of the room associated with this event.
    pub room_id: String,
}

impl OriginalUnstableBeaconResponseEvent {
    /// Get the data from this response necessary to compile beacon results.
    pub fn data(&self) -> (data: BeaconResponseData<'_>)
        ensures
            data@ == (Response {
                sender: self.sender@,
                sent_at: self.origin_server_ts,
                selections: views(self.content.beacon_response.answers@),
            }),
    {
        BeaconResponseData {
            sender: self.sender.as_str(),
            origin_server_ts: self.origin_server_ts,
            selections: self.content.beacon_response.answers.as_slice(),
        }
    }
}

/// An unstable block for beacon response content.
#[derive(Clone, Debug)]
pub struct UnstableBeaconResponseContentBlock {
    /// The selected answers for the response.
    pub answers: Vec<String>,
}

impl UnstableBeaconResponseContentBlock {
    /// Creates a new `UnstableBeaconResponseContentBlock` with the given answers.
    pub fn new(answers: Vec<String>) -> (block: Self)
        ensures
            block.answers == answers,
    {
        UnstableBeaconResponseContentBlock { answers }
    }

    /// The block with the given answers.
    pub fn from(value: Vec<String>) -> (block: Self)
        ensures
            block.answers == value,
    {
        Self::new(value)
    }

    /// Validate these selections against the given `UnstableBeaconStartContentBlock`.
    ///
    /// Returns the list of valid selections in this `UnstableBeaconResponseContentBlock`, or
    /// `None` if there is no valid selection.
    pub fn validate<'a>(&'a self, beacon: &UnstableBeaconStartContentBlock) -> (r: Option<
        Vec<&'a str>,
    >)
        ensures
            match r {
                Some(v) => v@.len() > 0 && str_views(v@) == valid_selections(
                    beacon.answer_ids(),
                    beacon.max_selections as nat,
                    views(self.answers@),
                ),
                None => valid_selections(
                    beacon.answer_ids(),
                    beacon.max_selections as nat,
                    views(self.answers@),
                ).len() == 0,
            },
            r matches Some(v) ==> v@.len() <= beacon.max_selections && forall|i: int|
                0 <= i < v@.len() ==> beacon.answer_ids().contains(#[trigger] v@[i]@),
    {
        let answer_ids = beacon.answer_id_set();
        validate_selections(&answer_ids, beacon.max_selections, self.answers.as_slice())
    }
}

} // verus!
