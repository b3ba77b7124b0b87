//! Verified core of the Kubi voxel client and its immediate-mode UI library:
//! layout primitives, draw-plan construction, the glyph atlas, texture space
//! allocation, chat history, input state and the client's decision rules.

pub mod layout;
pub mod math;
pub mod text;
pub mod draw;
pub mod ui;
pub mod modified;
pub mod texman;
pub mod chat;
pub mod assets;
pub mod input;
pub mod touch;
pub mod networking;
pub mod state;
pub mod controls;
pub mod events;
