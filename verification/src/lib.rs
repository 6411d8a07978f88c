//! A uniform HTTP request and response model over native transports.
//!
//! The library holds what is the same on every transport: the request under
//! construction (`request`), the header text protocol (`codec`, `block`), the
//! header mapping (`headers`), the finished response (`response`), the
//! failures (`error`), the state of an exchange in flight (`exchange`), and
//! the decisions of the two asynchronous engines: the loop that multiplexes
//! many transfers (`engine`, with its `mailbox` and its `table` of tokens),
//! and the state machine that follows a stack's status callbacks
//! (`callback`). Performing the transfers is left to the caller.

pub mod block;
pub mod callback;
pub mod codec;
pub mod engine;
pub mod error;
pub mod exchange;
pub mod headers;
pub mod mailbox;
pub mod request;
pub mod response;
pub mod table;
