//! Errors of event handling.

use vstd::prelude::*;

verus! {

/// Errors raised while registering, emitting, encoding or decoding events.
#[derive(Debug, Clone)]
pub enum EventError {
    /// A handler failed, or input was rejected while handling an event.
    HandlerExecution(String),
    /// No handler or object was found for an event.
    HandlerNotFound(String),
    /// An event could not be serialized; the message says why.
    Serialization(String),
    /// An event could not be deserialized; the message says why.
    Deserialization(String),
}

/// What an [`EventError`] says: its kind and the text of its message.
pub enum EventErrorView {
    HandlerExecution(Seq<char>),
    HandlerNotFound(Seq<char>),
    Serialization(Seq<char>),
    Deserialization(Seq<char>),
}

impl View for EventError {
    type V = EventErrorView;

    open spec fn view(&self) -> EventErrorView {
        match self {
            EventError::HandlerExecution(m) => EventErrorView::HandlerExecution(m@),
            EventError::HandlerNotFound(m) => EventErrorView::HandlerNotFound(m@),
            EventError::Serialization(m) => EventErrorView::Serialization(m@),
            EventError::Deserialization(m) => EventErrorView::Deserialization(m@),
        }
    }
}

/// The error is `HandlerExecution` with the given message.
pub open spec fn is_handler_execution(e: EventError, msg: Seq<char>) -> bool {
    e matches EventError::HandlerExecution(m) && m@ == msg
}

/// An event that can travel through the event system: it serializes to
/// bytes, and reads back from them.
pub trait Event: Sized {
    /// The bytes the event serializes to, or `None` when it cannot.
    spec fn event_encoding(&self) -> Option<Seq<u8>>;

    /// Whether the bytes read back as an event, and as which.
    spec fn event_decodes(data: Seq<u8>, v: Self) -> bool;

    /// Whether the bytes read back as an event.
    spec fn event_decodable(data: Seq<u8>) -> bool;

    /// The error the event gives when it cannot be serialized.
    spec fn event_encoding_error(&self) -> EventErrorView;

    /// The error bytes that do not read back as an event give.
    spec fn event_decoding_error(data: Seq<u8>) -> EventErrorView;

    /// Serializes the event.
    fn serialize(&self) -> (r: Result<Vec<u8>, EventError>)
        ensures
            match r {
                Ok(bytes) => self.event_encoding() == Some(bytes@),
                Err(e) => self.event_encoding() is None && e@ == self.event_encoding_error(),
            },
    ;

    /// Deserializes an event.
    fn deserialize(data: &[u8]) -> (r: Result<Self, EventError>)
        ensures
            match r {
                Ok(v) => Self::event_decodable(data@) && Self::event_decodes(data@, v),
                Err(e) => !Self::event_decodable(data@) && e@ == Self::event_decoding_error(data@),
            },
    ;
}

} // verus!
