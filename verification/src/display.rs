//! The text console.
pub mod vga_text;
