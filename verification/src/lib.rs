//! An ABCI server core: the consensus-connection state machine, the
//! assembly of finalized blocks, the routing of requests to application
//! handlers, and the numbering and reordering of responses around `Flush`.
//!
//! Where a length-prefixed message ends, what to do with a decoded request,
//! and in which order answers are written is decided here and verified.
//! Sockets, the Protocol Buffers encoding of messages and the asynchronous
//! application traits live in the `app/` crate.

pub mod error;
pub mod types;
pub mod finalized;
pub mod state;
pub mod window;
pub mod dispatch;
pub mod session;
pub mod frame;
