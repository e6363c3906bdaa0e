//! Decoding of SMART Health Card (SHC) credentials.
//!
//! The library reverses the SHC encoding pipeline: a QR payload holding a
//! numeric digit-pair string is turned back into a compact JWT, the JWT's
//! payload segment is base64url-decoded and inflated as raw deflate data,
//! the resulting JSON text is parsed into a typed FHIR subset, and a fixed
//! textual summary is rendered for each resource.

pub mod error;
pub mod model;
pub mod json;
pub mod numeric;
pub mod pipeline;
pub mod report;
pub mod split;
mod util;
