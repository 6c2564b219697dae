//! Rule-based structural analysis of syntax trees: a complexity score and
//! a list of findings, both computed from the shape of an already parsed tree.

pub mod analysis;
pub mod analyzer;
pub mod catalog;
pub mod matcher;
pub mod rule;
pub mod score;
pub mod text;
pub mod tree;

pub use crate::analyzer::CodeAnalyzer;
