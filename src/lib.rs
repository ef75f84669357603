//! A stateful decoder for IPFIX (version 10) messages.
//!
//! Template sets teach a [`state::State`] registry the layout of later data
//! sets; data sets are cut into records and each field is turned into a typed
//! value through a registry of field formatters keyed by enterprise number and
//! information-element id.

/// built-in field formatters and the formatter registry
pub mod formatter;
/// wire decoding of messages, sets, templates and data records
pub mod parser;
/// the hash map of `rustc_hash` behind the registries
mod fxmap;
/// the template registry
pub mod state;
/// general properties of the decoder, proved
pub mod laws;
