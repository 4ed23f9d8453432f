//! A verified core for a desktop bridge that forwards HTTP requests on
//! behalf of an embedded web front-end and sizes the main window at startup.
//!
//! The request half validates the method, parses and filters the caller's
//! header payload; the response half assembles status, headers and body and
//! encodes them as a single JSON payload. The window sizer computes the
//! startup geometry over exact rationals.

pub mod error;
pub mod forward;
pub mod geometry;
pub mod headers;
pub mod json;
pub mod method;
pub mod response;
