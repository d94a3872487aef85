use vstd::prelude::*;

pub mod text;
pub mod escape;
pub mod network_string;
pub mod errors;
pub mod plugins;
pub mod event;
pub mod connection_limit;
pub mod parsing;
pub mod pool;
pub mod mt_pool;
pub mod mt_datatypes;
pub mod graphics;
pub mod scene_handle;
pub mod wasm_runtime_types;
pub mod network_types;
pub mod client;
pub mod ordered_channels;
pub mod binds;
pub mod sound_memory;
pub mod render_setup;
pub mod game_flow;
pub mod community;
pub mod local_players;
pub mod ui_textures;

verus! {

} // verus!
