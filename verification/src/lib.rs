//! Application loading and sequential dispatch for a single-hart batch kernel.
//!
//! The kernel image embeds a fixed set of user applications. This library
//! places each of them into its execution slot, builds the register record an
//! application starts from, pushes that record onto a kernel stack and decides,
//! each time control comes back from user mode, which application runs next or
//! whether the machine powers off. Memory is modelled by owned, address-bound
//! buffers, so every copy is bounds-checked and every effect has a contract.

pub mod batch;
pub mod config;
pub mod console;
pub mod context;
pub mod image;
pub mod loader;
pub mod region;
pub mod sbi;
pub mod stack;
pub mod words;
