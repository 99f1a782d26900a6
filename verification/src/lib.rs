//! The refresh engine of a small dashboard: it turns the fetched states of a
//! catalog of remote entities into what a fixed-geometry character display is
//! to show, field by field.

pub mod error;
pub mod url;
pub mod entity;
pub mod text;
pub mod render;
pub mod fetch;
pub mod luminance;
pub mod supervisor;
pub mod cycle;
pub mod dashboard;
