//! A CHIP-8 virtual machine: a byte-addressable memory, sixteen byte
//! registers, and a fetch-decode-execute cycle over the classic 35-opcode
//! instruction set, together with a static disassembler that shares the
//! decoder's field-extraction rules.
//!
//! The machine is modelled in [`model`] as a ghost state with one spec
//! function per instruction; the executable interpreter in [`cpu`] is proved
//! to follow that model cycle for cycle. [`laws`] states and proves the
//! machine-wide properties that relate several instructions.

pub mod model;

pub mod cpu;

pub mod laws;
