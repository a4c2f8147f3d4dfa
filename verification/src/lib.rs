//! Verified core of a language server that reports the findings of the Mago
//! PHP toolchain, together with the decisions of the editor extensions that
//! locate and launch it.

pub mod text;
pub mod frame;
pub mod json;
pub mod report;
pub mod codec;
pub mod config;
pub mod server;
pub mod platform;
pub mod extension;
pub mod installer;
