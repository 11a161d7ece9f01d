//! An embeddable micro-interpreter: text tokens are resolved, one by one,
//! against a registry of handlers that the host supplies.

pub mod context;
pub mod dispatch;
pub mod errors;
pub mod laws;
pub mod pattern;
pub mod program;
pub mod text;
pub mod token;
pub mod values;

pub use context::Context;
pub use context::Scope;
pub use dispatch::Plan;
pub use dispatch::Strategy;
pub use errors::Errors;
pub use errors::Fault;
pub use program::Program;
pub use token::FunctionHandler;
pub use token::KeyHandler;
pub use token::Token;
pub use values::Value;
pub use values::Values;
