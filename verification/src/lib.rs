//! Verified core of a camera-photo backup pipeline.
//!
//! A scanner walks a source tree for image files, a bounded cancellable
//! channel hands them to upload workers, and a streaming transfer protocol
//! (existence check, chunked upload) moves each file to a date-partitioned
//! destination tree kept in an in-memory index on the server side.

pub mod channel;
pub mod client;
pub mod date;
pub mod digits;
pub mod local;
pub mod metadata;
pub mod scan;
pub mod server;
pub mod transfer;
