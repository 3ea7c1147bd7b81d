//! Guest-side runtime memory layer for a zero-knowledge virtual machine:
//! a build-time-derived memory layout for the three public segments, bounded
//! stateful accessors over those segments, and a bump allocator that watches
//! for collision with the downward-growing stack.

pub mod config;
pub mod heap;
pub mod layout;
pub mod segment;
