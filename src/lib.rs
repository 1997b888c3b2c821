//! Function signatures, selectors and call dispatch for contracts compiled
//! from WebAssembly.

pub mod selector;
pub mod dispatcher;
pub mod opcode;
pub mod control;
