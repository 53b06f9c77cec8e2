//! Placeholder-image service core: color parsing and luminance
//! classification, request validation, cache fingerprinting, and layout
//! composition for an on-demand placeholder renderer.

pub mod color;
pub mod compose;
pub mod fingerprint;
pub mod request;
pub mod service;

