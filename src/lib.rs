//! Constant-product automated market maker: pool records, instruction codec,
//! swap arithmetic and the pool's state machine.

pub mod error;
pub mod host;
pub mod instruction;
pub mod processor;
pub mod state;
pub mod swap;
