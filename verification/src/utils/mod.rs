//! Small helpers.

pub mod graphics;
