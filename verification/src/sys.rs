//! What the library decides for a native converter: which calls to make,
//! with what, and what their outcomes mean. The calls themselves are made
//! by the program that links the converter.

pub mod iconv;
pub mod win;
