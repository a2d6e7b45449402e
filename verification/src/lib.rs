//! Core editing logic of the Preview image viewer: pixel rasters and their
//! geometric transforms, display-format pixel conversion, undo/redo history,
//! annotation selection, tool modes, gesture decisions and the document
//! updates that tie them together.
mod imaging;

pub mod shapes;
pub mod raster;
pub mod transforms;
pub mod pixels;
pub mod history;
pub mod selection;
pub mod tools;
pub mod gestures;
pub mod draft;
pub mod export;
pub mod text;
pub mod document;
