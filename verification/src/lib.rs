//! Errors of a script: making and throwing them, and reading their message, their stack
//! and the stack frames that the engine captured with them.
pub mod convert;
pub mod ctx;
pub mod display;
pub mod exception;
pub mod frame;
pub mod laws;
pub mod locals;
pub mod object;
pub mod text;
pub mod value;
