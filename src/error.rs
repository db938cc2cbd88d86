use vstd::prelude::*;

verus! {

/// Failures reported by the library.
#[derive(Debug)]
pub enum Error {
    /// The background worker that serves requests is gone.
    UnexpectedShutdown,
    /// No live connection is recorded for the channel.
    SocketDoesNotExist,
    /// A message arrived on a channel whose kind does not take it.
    ChannelResponseMismatch,
    /// No tape or book is held for the channel.
    ChannelDoesNotExist,
    /// The channel already has a tape or book.
    ChannelAlreadySubscribed,
    /// The transport connection failed; the text describes how.
    Transport(String),
    /// A payload could not be decoded; the text describes why.
    Decode(String),
}

/// Result with the library's error.
pub type Result<T> = core::result::Result<T, Error>;

} // verus!
