//! Region capture normalisation and multi-strategy QR decoding.
//!
//! The library maps a logical desktop region onto the physical pixels of the
//! display that owns it, crops captured frames safely, drives an ordered
//! catalogue of preprocessing strategies against a QR detector with early exit
//! and deduplication, and holds the single captured frame of an interactive
//! selection session.
pub mod codes;
pub mod geometry;
pub mod frame;
pub mod pipeline;
pub mod session;
pub mod settings;
pub mod filters;
