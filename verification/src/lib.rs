//! The logic of a bot that tells jokes: it reads the commands that come in,
//! decides what to fetch and what to count, and words the replies.
//!
//! Nothing here talks to the network or waits on a lock. A caller hands in
//! what it received and what a fetch gave, and gets back what to do next and
//! what to answer.

pub mod category;
pub mod fetch;
pub mod handlers;
pub mod message;
pub mod state;
pub mod status;
pub mod text;
pub mod tokens;
