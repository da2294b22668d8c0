//! Normalizes discussion-thread data from two JSON sources (a live nested
//! listing format and a flat archival export format) into one canonical
//! in-memory model, offers two query modes over the resulting comment tree,
//! and assembles render-ready values for an external renderer.

pub mod bdfr;
pub mod canonical;
pub mod models;
pub mod post;
pub mod ssg;
pub mod strings;
pub mod template;
