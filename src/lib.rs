//! An interactive command interpreter's core: splitting an input line into
//! pipeline stages, expanding argument tokens, and deciding, stage by stage,
//! which built-in to run or which process to start and how to wire it.

pub mod expand;
pub mod pipeline;
pub mod prompt;
pub mod text;
