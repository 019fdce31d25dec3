//! A small educational register machine and its assembler.
//!
//! Instructions are 16-bit words (`encoding`); the machine (`cpu`) holds four
//! registers and 64 words of memory and is driven one fetch, decode and
//! execute at a time; the assembler (`assembler`) turns mnemonic text into
//! words, which `image` writes and reads as big-endian bytes; `session` holds
//! the decisions of an interactive run.
pub mod assembler;
pub mod cpu;
pub mod encoding;
pub mod image;
pub mod render;
pub mod session;
pub mod text;
