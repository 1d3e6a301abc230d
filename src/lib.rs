//! Reagent-volume planning for qPCR experiments.
//!
//! The library decides how many reactions an experiment needs and which
//! targets receive a working solution; the volumes themselves are the
//! per-reaction recipe multiplied by those counts.
pub mod greeting;
pub mod plan;
