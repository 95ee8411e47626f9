//! Verified core of the cameraman CCTV backend: Bangla licence-plate
//! recognition, request decoding, provider selection and the in-memory stores.
pub mod config;
pub mod distance;
pub mod error;
pub mod event;
pub mod legacy;
pub mod pattern;
pub mod payload;
pub mod plate;
pub mod plate_check;
pub mod provider;
pub mod store;
pub mod text;
