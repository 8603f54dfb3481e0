//! What the connection layer reports about a stream.

use vstd::prelude::*;

verus! {

/// What a stream is doing, as a test that plays the network sees it.
#[derive(Debug)]
pub enum NetworkInteraction {
    /// The server sends this text.
    Sending(String),
    /// The server waits for a line.
    Reading,
}

/// Why a stream could not be read or written.
#[derive(Debug)]
pub enum Error {
    ConnectionClosed,
    Custom(String),
}

} // verus!
