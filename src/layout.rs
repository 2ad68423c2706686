//! Layout geometry of rendered documents.
pub mod box_model;
pub mod layout_tree;
