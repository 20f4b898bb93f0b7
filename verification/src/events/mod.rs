//! Domain events and their decoding.

use vstd::prelude::*;

pub mod consumer;
pub mod jobsite;

verus! {

/// Why a record could not be decoded into a domain event.
#[derive(Debug, PartialEq, Eq)]
pub enum EventParseError {
    /// The record carries no event.
    MissingEventData,
    /// The payload is not JSON, or lacks what the event type asks for.
    DeserializationError,
    /// The type tag names no known event.
    UnknownEventType(String),
}

/// The mathematical value of an [`EventParseError`].
pub enum EventParseErrorView {
    MissingEventData,
    DeserializationError,
    UnknownEventType(Seq<char>),
}

impl View for EventParseError {
    type V = EventParseErrorView;

    open spec fn view(&self) -> EventParseErrorView {
        match self {
            EventParseError::MissingEventData => EventParseErrorView::MissingEventData,
            EventParseError::DeserializationError => EventParseErrorView::DeserializationError,
            EventParseError::UnknownEventType(name) => EventParseErrorView::UnknownEventType(name@),
        }
    }
}

impl EventParseError {
    /// The message of the error, as it is logged.
    pub fn message(&self) -> (text: String)
        ensures
            text@ == match self@ {
                EventParseErrorView::MissingEventData => "Event data is missing"@,
                EventParseErrorView::DeserializationError => "Failed to deserialize event data"@,
                EventParseErrorView::UnknownEventType(name) => "Unknown event type: "@ + name,
            },
    {
        match self {
            EventParseError::MissingEventData => "Event data is missing".to_owned(),
            EventParseError::DeserializationError => "Failed to deserialize event data".to_owned(),
            EventParseError::UnknownEventType(name) => {
                let mut text = "Unknown event type: ".to_owned();
                text.append(name.as_str());
                text
            },
        }
    }
}

} // verus!
