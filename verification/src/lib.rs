//! The editing core of an image editor: colours, layers, rasters, undo
//! history and export planning, with their contracts.

pub mod labels;
pub mod raster;
pub mod raster_laws;
pub mod fill;
pub mod blur;
pub mod history;
pub mod text;
pub mod color;
pub mod palette;
pub mod export;
pub mod text_edit;
pub mod layers;
pub mod editor;
pub mod layer_ops;
pub mod gray;
pub mod tools;
pub mod text_session;
pub mod cache;
pub mod commands;
pub mod editor_laws;
pub mod brush;
pub mod retouch;
pub mod favorites;
pub mod panel;
pub mod text_tool;
pub mod load;
pub mod stroke;
pub mod shortcuts;
