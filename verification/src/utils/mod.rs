//! Small building blocks shared by the other modules.

pub mod interpolator;
pub mod json;
pub mod text;
