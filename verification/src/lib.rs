//! Core of an interactive polygonal-model viewer: mesh-description parsing
//! with smooth-normal synthesis and material records, fixed-point transform
//! matrices, scene state, and the render-mode state machine with blended
//! transitions. Window handling and the graphics backend live outside this
//! library and only exchange plain values with it.

pub mod error;
pub mod fixed;
pub mod lexer;
pub mod matrices;
pub mod model;
pub mod normals;
pub mod parser;
pub mod buffers;
pub mod camera;
pub mod renderer;
pub mod texture;
