//! Text markup, audio routing, input bookkeeping and scene plumbing
//! for a small theatrical game engine.

pub mod audio;
pub mod color;
pub mod fireworks;
pub mod frame_loop;
pub mod input;
pub mod kinesis;
pub mod derive_input;
pub mod play;
pub mod scene_graph;
pub mod settings;
pub mod text;
