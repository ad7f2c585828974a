//! Checks that the variable groups and variables a pipeline definition refers
//! to can be resolved: the document model, the extraction of group references,
//! inline variable definitions and `$(name)` usages, and the rules that match
//! usages against what is known to exist.

pub mod azure;
pub mod error;
pub mod extraction;
pub mod guarantees;
pub mod names;
pub mod parser;
pub mod references;
pub mod template;
pub mod text;
pub mod tree;
pub mod validator;
pub mod yaml;
