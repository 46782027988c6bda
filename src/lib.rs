//! A modal terminal text editor: the text buffer, the viewport renderer and
//! the modal input dispatcher, with their behaviour stated and proved.

pub mod application;
pub mod editor;
pub mod renderer;
pub mod text;
pub mod vector;
