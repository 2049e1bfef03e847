//! Per-language collectors of import specifiers.

pub mod js_like;
pub mod style_like;
