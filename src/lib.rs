//! A text console drawn with a bitmap font onto a linear pixel frame buffer.
pub mod graphics;
pub mod font;
pub mod char_buffer;
pub mod console;
pub mod display_mode;
