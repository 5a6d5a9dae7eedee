//! A CHIP-8 virtual machine with verified instruction semantics.
//!
//! The library owns the fetch-decode-execute cycle, the register file with
//! its two 60 Hz countdown timers, the bounded call stack, addressable
//! memory with the built-in glyph sprites, and the XOR-blitted pixel
//! buffer. Every instruction's effect — carry and borrow flags, shifts,
//! binary-coded decimal, sprite collision and wrapping, skip and jump
//! discipline, and the fatal conditions a malformed cartridge can reach —
//! is stated as a contract and proved. The window, the keyboard and the
//! timer cadence belong to the driver around the library: it hands each
//! cycle a keypad snapshot, publishes frames when told to, ticks the timers,
//! and resolves key-waits.

pub mod cpu;
pub mod display;
pub mod opcodes;
pub mod registers;
