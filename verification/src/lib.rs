//! Transport core of a lightweight HTTP(S) client: the header-boundary
//! scanner, the multi-candidate connect strategy, and the producer/consumer
//! channel pipeline that enforces an absolute deadline across a sequence of
//! blocking reads.
//!
//! The modules, leaves first: [`errors`] is the failure taxonomy; [`head`]
//! locates the boundary between a message's header block and its body;
//! [`source`] models the buffered byte source the scanner and the producer
//! read from; [`deadline`] is the bounded polling loop that enforces an
//! absolute deadline; [`chan`] holds the trusted wrappers around the
//! standard library's channel; [`pipe`] is the producer and the consumer
//! of the transfer pipeline; [`connect`] decides which resolved address an
//! establishment uses. The sockets themselves, name resolution, the
//! secure-channel handshake and the worker threads are the unverified
//! edge around this library.

pub mod chan;
pub mod connect;
pub mod deadline;
pub mod errors;
pub mod head;
pub mod pipe;
pub mod source;
