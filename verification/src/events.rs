//! Kinds of mutation events broadcast to subscribers.

use vstd::prelude::*;

verus! {

/// The type of entity that was mutated.
#[derive(Debug, Clone, Copy, PartialEq, Eq, Structural)]
pub enum EventTarget {
    Collection,
    Global,
}

/// The mutation operation that occurred.
#[derive(Debug, Clone, Copy, PartialEq, Eq, Structural)]
pub enum EventOperation {
    Create,
    Update,
    Delete,
}

/// The lower-case name of an event target, as events are serialized.
pub open spec fn target_name(t: EventTarget) -> Seq<char> {
    match t {
        EventTarget::Collection => "collection"@,
        EventTarget::Global => "global"@,
    }
}

/// The lower-case name of an event operation, as events are serialized.
pub open spec fn operation_name(o: EventOperation) -> Seq<char> {
    match o {
        EventOperation::Create => "create"@,
        EventOperation::Update => "update"@,
        EventOperation::Delete => "delete"@,
    }
}

impl EventTarget {
    /// The serialized (lower-case) name.
    pub fn as_str(&self) -> (r: &'static str)
        ensures
            r@ == target_name(*self),
    {
        match self {
            EventTarget::Collection => "collection",
            EventTarget::Global => "global",
        }
    }
}

impl EventOperation {
    /// The serialized (lower-case) name.
    pub fn as_str(&self) -> (r: &'static str)
        ensures
            r@ == operation_name(*self),
    {
        match self {
            EventOperation::Create => "create",
            EventOperation::Update => "update",
            EventOperation::Delete => "delete",
        }
    }
}

} // verus!
