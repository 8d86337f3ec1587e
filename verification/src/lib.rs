//! Early hardware bring-up primitives for a bare-metal kernel: a packed
//! segment descriptor table (GDT) and a pixel-framebuffer text console.
//!
//! Both components are pure data manipulation: the descriptor table packs
//! base/limit/access bit fields into 8-byte records, and the console turns a
//! byte stream into pixel writes on a linear buffer with line wrap and
//! scroll-on-overflow. Boot-protocol plumbing (obtaining the framebuffer and
//! the font blob, loading the table register) lives outside this library.

pub mod fb;
pub mod gdt;
pub mod print;
