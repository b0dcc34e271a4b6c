//! Tracking-data decoding and avatar retargeting for a virtual puppet.
//!
//! The library turns the command line, the text tracking protocol and the
//! avatar's animation data into plain values, and decides which bone-pose and
//! morph-weight writes a tracking frame calls for. Numeric payloads that the
//! host works on as floating point are carried through as a type parameter.

pub mod chars;
pub mod cli;
pub mod frame;
pub mod text_protocol;
pub mod mapping;
pub mod retarget;
pub mod receiver;
pub mod logger;
