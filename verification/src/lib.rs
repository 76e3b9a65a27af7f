//! A small HTTP/1.1 message core, verified at the byte level: parsing a raw
//! request buffer into a structured request, routing it to a fixed set of
//! behaviors, and building the exact wire bytes of the response.
//!
//! Transport, filesystem access and the worker pool live outside this
//! library; it computes decisions and bytes from plain values.

pub mod scan;
pub mod request;
pub mod gzip;
pub mod response;
pub mod router;
pub mod laws;
