//! The connection-dispatch core of a small HTTP server: capped reading of
//! request bytes, framing into head and body, reading the head, routing with
//! path placeholders, the per-connection sequence of middleware, service and
//! response, and the queue and decisions of the worker pool.

pub mod exchange;
pub mod framing;
pub mod head;
pub mod pipeline;
pub mod reader;
pub mod response;
pub mod router;
pub mod worker;
