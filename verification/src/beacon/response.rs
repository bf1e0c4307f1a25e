//! Types for the `m.beacon.response` event.

use vstd::prelude::*;

use crate::beacon::start::BeaconContentBlock;
use crate::beacon::{
    str_views, valid_selections, validate_selections, BeaconResponseData, Response,
};
use crate::ordered::views;
use crate::relation::Reference;

verus! {

/// The payload for a beacon response event.
#[derive(Clone, Debug)]
pub struct BeaconResponseEventContent {
    /// The user's selection.
    pub selections: SelectionsContentBlock,
    /// Information about the beacon start event this responds to.
    pub relates_to: Reference,
}

impl BeaconResponseEventContent {
    /// Creates a new `BeaconResponseEventContent` that responds to the given beacon start event
    /// ID, with the given beacon response content.
    pub fn new(selections: SelectionsContentBlock, beacon_start_id: String) -> (content: Self)
        ensures
            content.selections == selections,
            content.relates_to.event_id@ == beacon_start_id@,
    {
        BeaconResponseEventContent { selections, relates_to: Reference::new(beacon_start_id) }
    }
}

/// A beacon response event as it comes from a sync, where the room is known from the context.
#[derive(Clone, Debug)]
pub struct OriginalSyncBeaconResponseEvent {
    /// Data specific to the event type.
    pub content: BeaconResponseEventContent,
    /// The globally unique identifier of the event.
    pub event_id: String,
    /// The fully-qualified ID of the user who sent this event.
    pub sender: String,
    /// Timestamp on the originating homeserver when this event was sent, in milliseconds since
    /// the Unix epoch.
    pub origin_server_ts: u64,
}

impl OriginalSyncBeaconResponseEvent {
    /// Get the data from this response necessary to compile beacon results.
    pub fn data(&self) -> (data: BeaconResponseData<'_>)
        ensures
            data@ == (Response {
                sender: self.sender@,
                sent_at: self.origin_server_ts,
                selections: self.content.selections@,
            }),
    {
        BeaconResponseData {
            sender: self.sender.as_str(),
            origin_server_ts: self.origin_server_ts,
            selections: self.content.selections.as_slice(),
        }
    }
}

/// A beacon response event with the room it was sent to.
#[derive(Clone, Debug)]
pub struct OriginalBeaconResponseEvent {
    /// Data specific to the event type.
    pub content: BeaconResponseEventContent,
    /// The globally unique identifier of the event.
    pub event_id: String,
    /// The fully-qualified ID of the user who sent this event.
    pub sender: String,
    /// Timestamp on the originating homeserver when this event was sent, in milliseconds since
    /// the Unix epoch.
    pub origin_server_ts: u64,
    /// The ID of the room associated with this event.
    pub room_id: String,
}

impl OriginalBeaconResponseEvent {
    /// Get the data from this response necessary to compile beacon results.
    pub fn data(&self) -> (data: BeaconResponseData<'_>)
        ensures
            data@ == (Response {
                sender: self.sender@,
                sent_at: self.origin_server_ts,
                selections: self.content.selections@,
            }),
    {
        BeaconResponseData {
            sender: self.sender.as_str(),
            origin_server_ts: self.origin_server_ts,
            selections: self.content.selections.as_slice(),
        }
    }
}

/// A block for selections content.
#[derive(Clone, Debug)]
pub struct SelectionsContentBlock {
    selections: Vec<String>,
}

impl View for SelectionsContentBlock {
    type V = Seq<Seq<char>>;

    closed spec fn view(&self) -> Seq<Seq<char>> {
        views(self.selections@)
    }
}

impl SelectionsContentBlock {
    /// The block with the given selections.
    pub fn from(value: Vec<String>) -> (block: Self)
        ensures
            block@ == views(value@),
    {
        SelectionsContentBlock { selections: value }
    }

    /// The selections, in their order.
    pub fn as_slice(&self) -> (selections: &[String])
        ensures
            views(selections@) == self@,
    {
        self.selections.as_slice()
    }

    /// The selections, in their order.
    pub fn into_vec(self) -> (selections: Vec<String>)
        ensures
            views(selections@) == self@,
    {
        self.selections
    }

    /// Whether this `SelectionsContentBlock` is empty.
    pub fn is_empty(&self) -> (b: bool)
        ensures
            b == (self@.len() == 0),
    {
        self.selections.len() == 0
    }

    /// Validate these selections against the given `BeaconContentBlock`.
    ///
    /// Returns the list of valid selections in this `SelectionsContentBlock`, or `None` if
    /// there is no valid selection.
    pub fn validate<'a>(&'a self, beacon: &BeaconContentBlock) -> (r: Option<Vec<&'a str>>)
        ensures
            match r {
                Some(v) => v@.len() > 0 && str_views(v@) == valid_selections(
                    beacon.answer_ids(),
                    beacon.max_selections as nat,
                    self@,
                ),
                None => valid_selections(
                    beacon.answer_ids(),
                    beacon.max_selections as nat,
                    self@,
                ).len() == 0,
            },
            r matches Some(v) ==> v@.len() <= beacon.max_selections && forall|i: int|
                0 <= i < v@.len() ==> beacon.answer_ids().contains(#[trigger] v@[i]@),
    {
        let answer_ids = beacon.answer_id_set();
        validate_selections(&answer_ids, beacon.max_selections, self.selections.as_slice())
    }
}

} // verus!
