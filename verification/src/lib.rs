//! Verified core logic of a 3D text editor front end: glyph mesh
//! topology, surface row caching, word segmentation, input mapping,
//! search state and frame-rate management.

pub mod mesh;
pub mod fonts;
pub mod glyph_class;
pub mod surface;
pub mod strings;
pub mod framerate;
pub mod input;
pub mod search;
pub mod minimap;
pub mod lsp;
pub mod language_server;
pub mod highlights;
pub mod glyph_image;
pub mod helix_app;
pub mod goto;
pub mod hover;
pub mod terminal;
pub mod app_state;
pub mod selection;
