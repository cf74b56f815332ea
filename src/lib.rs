//! Account lookups, texture payload decoding and server blocklist matching for a game-account
//! web service, with the request plumbing left to the caller.
pub mod api;
pub mod blocklist;
pub mod colors;
pub mod digest;
pub mod text;
