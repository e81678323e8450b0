//! A CHIP-8 virtual machine: the CPU execution engine, the framebuffer with
//! XOR sprite drawing and collision detection, the logical keyboard state and
//! the loader for textual ROMs.
pub mod cpu;
pub mod display;
pub mod instruction;
pub mod keyboard;
pub mod rom_loader;
pub mod semantics;
