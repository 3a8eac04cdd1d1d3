//! A verified CHIP-8 interpreter core.
//!
//! The crate holds the instruction decoder, the byte-addressable memory,
//! the monochrome framebuffer with its XOR sprite blit, and the execution
//! engine that fetches, decodes and executes one instruction per step.
//! Renderers and host drivers live outside the core: they construct an
//! engine, call `step`, and read the framebuffer back.

pub mod app;
pub mod chip8;
pub mod display;
pub mod memory;
