//! Screenshot tool core: capture kinds, configuration, file naming,
//! hotkey parsing, region selection and pixel conversion.

pub mod capture;
pub mod text;
pub mod winpath;
pub mod config;
pub mod naming;
pub mod error;
pub mod geometry;
pub mod region;
pub mod hotkey;
pub mod pixels;
pub mod system;
pub mod laws;
