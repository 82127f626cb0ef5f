//! The schema of an enumeration of error variants: reading the declaration
//! on each variant, checking where the declarations stand, and making the
//! table that gives each variant its classification.

pub mod ast;
pub mod attr;
pub mod expand;
pub mod valid;
