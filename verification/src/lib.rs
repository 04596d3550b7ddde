//! Gadget layer for compiling the BLAKE3 compression structure into a
//! stack-machine circuit whose only arithmetic is small-integer addition
//! and table lookups.
//!
//! Every value that flows through a circuit build carries both a plain
//! numeric value and a handle into a shared, append-only constraint
//! context. The arithmetic gadgets (nibble-wise addition with carry,
//! XOR, fixed shifts) record one verification subprogram per call and
//! produce new constrained values; eight nibbles in fixed order form a
//! 32-bit word, and the word gadgets drive the BLAKE3 mixing function,
//! round schedule, compression, and the one-shot and incremental
//! hashing engines.

pub mod context;
pub mod lookup_table;
pub mod u4;
pub mod u32;
pub mod compact;
pub mod g;
pub mod round;
pub mod blake3;
pub mod blake3ic;
pub mod reference;
