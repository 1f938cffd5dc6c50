//! A last-in-first-out stack kept as a singly linked chain of owned nodes.
//!
//! The contents of a stack are modelled as a sequence whose first element is
//! the top. Every operation is specified against that sequence.

pub mod laws;
pub mod model;
pub mod render;
pub mod stack;
