//! A small toolchain for a fixed-width register virtual machine: a two-pass
//! assembler that turns a textual assembly dialect into a self-describing
//! binary image, and an interpreter that loads and executes such images.
//!
//! The binary image is a 64-byte header (four magic bytes followed by sixty
//! zero bytes) followed by the code segment; every instruction occupies
//! exactly four bytes. String constants declared with `.asciiz` are collected
//! into a separate read-only buffer that is staged into the machine alongside
//! the image, and the interpreter's program counter starts at byte 64.

pub mod assembler;
pub mod instruction;
pub mod laws;
pub mod vm;
