//! A verified CHIP-8 interpreter core.
//!
//! The register file, addressable state (memory, framebuffer, call stack,
//! timers, key bitset), the instruction dispatcher and the frame driver all
//! carry contracts that pin down the documented CHIP-8 semantics: overflow
//! and borrow flag conventions, sprite XOR-drawing with collision detection,
//! and the blocking key-wait modeled as a program-counter rewind.
//!
//! The presentation layer (display, tone, keyboard, host loop) is outside the
//! core and reaches it only through the traits of [`interfaces`].

pub mod cpu;
pub mod emulator;
pub mod interfaces;
pub mod mmu;
pub mod registers;
