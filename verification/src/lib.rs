//! Launch planning, option handling and line completion for a shell that runs
//! programs with VMPL support.

pub mod text;
pub mod order;
pub mod env;
pub mod launch;
pub mod decimal;
pub mod fs;
pub mod complete;
pub mod paths;
pub mod shell;
