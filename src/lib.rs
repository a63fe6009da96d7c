//! Renders an error together with the chain of errors that caused it.
pub mod chain;
pub mod rendering;
pub mod source;

pub use chain::DisplayErrorChain;
pub use source::{ChainedError, ErrorLike};
