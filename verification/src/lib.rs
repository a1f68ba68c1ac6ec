//! A voice-journal core: a verified calendar heatmap builder and a
//! verified model of a one-shot audio capture session.
//!
//! The library holds the decisions of the journal: calendar dates and
//! their weekdays ([`date`]), the store snapshot and the date-to-color
//! lookup ([`store`]), the Monday-aligned year grid ([`grid`]), hex color
//! parsing and the palette ([`color`]), the glyph choice per cell
//! ([`render`]), the capture session's shared state and sink ([`capture`])
//! and its lifecycle with the enrichment fallbacks ([`session`]). The
//! binary around it only moves bytes: terminal, audio hardware, HTTP and
//! JSON files.

pub mod capture;
pub mod color;
pub mod date;
pub mod grid;
pub mod render;
pub mod session;
pub mod store;
