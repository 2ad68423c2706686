//! Style sheets and selector matching for rendered documents.
pub mod parser;
pub mod selector;
