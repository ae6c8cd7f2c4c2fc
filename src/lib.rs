//! A register machine that runs programs of 32-bit words against a segmented
//! memory, together with the bit-field codec its instruction encoding rests on.
//!
//! The machine does no I/O of its own: `MchState::step` runs one instruction
//! and tells the caller which byte to write, and takes the byte that an input
//! instruction reads as an argument.

pub mod address_space;
pub mod bitpack;
pub mod error;
pub mod instruction;
pub mod loader;
pub mod mch_state;
