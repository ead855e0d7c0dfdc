//! Core of an interactive editor for binary/network protocol field diagrams.
//!
//! A protocol diagram is described by a [`descriptor::Descriptor`]: an ordered
//! list of named, sized fields together with diagram-wide style and annotation
//! settings. The editor keeps two representations of the field list in sync:
//! raw, possibly-invalid edit buffers ([`descriptor::FieldInput`]) and the
//! canonical field models ([`descriptor::FieldModel`]). This crate holds the
//! data model, the buffer/model synchronizer, the editor state container, the
//! JSON persistence of descriptors, and the adapter to the external rendering
//! engine.

pub mod color;
pub mod descriptor;
pub mod editor;
pub mod errors;
pub mod json;
pub mod numeric;
pub mod persist;
pub mod render;
pub mod sync;
mod text;
