//! The plain data of the user interface.

pub mod notification;
pub mod text_input;
