//! Core of a package manager for the Flow language: manifest model and its
//! on-disk text form, package path derivation, dependency resolution, build
//! command planning, and the decision logic of the registry client.
//!
//! Everything here is pure with respect to the host: filesystem facts,
//! environment values and network responses enter as plain values, so the
//! rules that act on them can be verified.

pub mod builder;
pub mod checksum;
pub mod config;
pub mod error;
pub mod interop;
pub mod manifest;
pub mod manifest_text;
pub mod package;
pub mod registry;
pub mod resolver;
pub mod strutil;
