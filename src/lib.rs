//! Compiles a screenplay-style visual-novel script into an ordered deck of slides.
pub mod text;
pub mod script;
pub mod classify;
pub mod assemble;
pub mod traverse;
pub mod render;
pub mod compile;
pub mod laws;
