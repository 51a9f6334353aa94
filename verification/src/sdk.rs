//! Plain data types of the guest SDK's capabilities.

use std::collections::HashMap;
use vstd::prelude::*;

verus! {

/// Message represents a message to be published.
#[derive(Debug)]
pub struct Message {
    /// The message payload.
    pub payload: Vec<u8>,
    /// The message headers.
    pub headers: HashMap<String, String>,
}

impl Message {
    /// Create a new message with the specified payload and no headers.
    pub fn new(payload: &[u8]) -> (res: Message)
        ensures
            res.payload@ == payload@,
            res.headers@ == Map::<String, String>::empty(),
    {
        Message { payload: vstd::slice::slice_to_vec(payload), headers: HashMap::new() }
    }
}

/// Metadata for a blobstore container.
#[derive(Debug, Clone)]
pub struct ContainerMetadata {
    /// The container's name.
    pub name: String,
    /// Seconds since Unix epoch when the container was created.
    pub created_at: u64,
}

/// Metadata for an object in a blobstore container.
#[derive(Debug, Clone)]
pub struct ObjectMetadata {
    /// The object's name.
    pub name: String,
    /// The object's parent container.
    pub container: String,
    /// Seconds since Unix epoch when the object was created.
    pub created_at: u64,
    /// Size of the object in bytes.
    pub size: u64,
}

} // verus!
