//! Planning and decision logic of a WebAssembly instrumentation pipeline,
//! verified with Verus.

pub mod options;
pub mod body;
pub mod table;
pub mod hooks;
pub mod interface;
pub mod merge;
pub mod wastrumenter;
pub mod instrument;
