//! Serialization of events for emission.

use crate::events::{Event, EventError};
use std::sync::Arc;
use vstd::prelude::*;

verus! {

/// Serializes events for emission, once for all their handlers.
pub struct SerializationBufferPool {
    _private: (),
}

impl SerializationBufferPool {
    /// Creates a pool.
    pub fn new() -> Self {
        SerializationBufferPool { _private: () }
    }

    /// Serializes an event into a shared buffer.
    pub fn serialize_event<T: Event>(&self, event: &T) -> (r: Result<Arc<Vec<u8>>, EventError>)
        ensures
            match r {
                Ok(bytes) => event.event_encoding() == Some((*bytes)@),
                Err(e) => event.event_encoding() is None && e@ == event.event_encoding_error(),
            },
    {
        match event.serialize() {
            Ok(data) => Ok(Arc::new(data)),
            Err(e) => Err(e),
        }
    }
}

} // verus!
