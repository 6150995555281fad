//! A small modal label editor: the buffer model, its editing commands,
//! key handling and the centred screen layout, all verified.

pub mod command_laws;
pub mod editor;
pub mod laws;
pub mod model;
pub mod render;
pub mod text;
