//! The settings of the code editor widget.

pub mod editor;
