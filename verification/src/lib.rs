use vstd::prelude::*;

pub mod clip;
pub mod matrix;
pub mod transport;
pub mod playlist;
pub mod engine;
pub mod names;
pub mod session;
pub mod explorer;
pub mod settings;
pub mod plugin;
pub mod quantizer;
pub mod preview;
pub mod mixer;
pub mod loop_drag;
pub mod timeline;
pub mod transport_controls;
pub mod fx_chain;

verus! {
} // verus!
