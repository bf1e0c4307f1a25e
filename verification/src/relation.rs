//! Relations between events: the event that an event refers to, replies to or replaces.

use vstd::prelude::*;

verus! {

/// A reference to another event.
#[derive(Clone, Debug)]
pub struct Reference {
    /// The ID of the event being referenced.
    pub event_id: String,
}

impl Reference {
    /// Creates a new `Reference` with the given event ID.
    pub fn new(event_id: String) -> (r: Self)
        ensures
            r.event_id@ == event_id@,
    {
        Reference { event_id }
    }
}

/// The event this relation belongs to replaces another event.
#[derive(Clone, Debug)]
pub struct Replacement<C> {
    /// The ID of the event being replaced.
    pub event_id: String,
    /// New content.
    pub new_content: C,
}

impl<C> Replacement<C> {
    /// Creates a new `Replacement` with the given event ID and new content.
    pub fn new(event_id: String, new_content: C) -> (r: Self)
        ensures
            r.event_id@ == event_id@,
            r.new_content == new_content,
    {
        Replacement { event_id, new_content }
    }
}

/// Information about the event a reply relation belongs to.
#[derive(Clone, Debug)]
pub struct InReplyTo {
    /// The event being replied to.
    pub event_id: String,
}

/// The content of a thread relation.
#[derive(Clone, Debug)]
pub struct Thread {
    /// The ID of the root message in the thread.
    pub event_id: String,
    /// A reply relation, if this is a reply within the thread.
    pub in_reply_to: Option<InReplyTo>,
    /// Whether the `in_reply_to` field is a fallback for older clients.
    pub is_falling_back: bool,
}

/// Message event relationship, except a replacement.
#[derive(Clone, Debug)]
pub enum RelationWithoutReplacement {
    /// An `m.in_reply_to` relation indicating that the event is a reply to another event.
    Reply {
        /// Information about another message being replied to.
        in_reply_to: InReplyTo,
    },
    /// An event that belongs to a thread.
    Thread(Thread),
}

/// Message event relationship.
#[derive(Clone, Debug)]
pub enum Relation<C> {
    /// An `m.in_reply_to` relation indicating that the event is a reply to another event.
    Reply {
        /// Information about another message being replied to.
        in_reply_to: InReplyTo,
    },
    /// An event that replaces another event.
    Replacement(Replacement<C>),
    /// An event that belongs to a thread.
    Thread(Thread),
}

} // verus!
