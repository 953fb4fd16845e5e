//! Kentos: the verified core of a small x86_64 hobby kernel.
//!
//! The VGA text console, the keyboard scancode table, the interactive shell,
//! the boot frame allocator and the heap mapping plan are modelled here on
//! plain values and verified; the hardware glue lives in `app/`.
pub mod kentos_stdio;
pub mod kentos_interrupts;
pub mod kentos_gdt;
pub mod kentos_memory;
pub mod kentos_alloc;

pub mod kentos_console;
