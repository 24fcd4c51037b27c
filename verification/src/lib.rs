//! Placeholder expansion and auto-fit scaling for positioned card text.

pub mod dict;
pub mod fit;
pub mod laws;
pub mod layout;
pub mod scan;
pub mod subst;
pub mod template;
pub mod text;
