//! Logic of the windowed client that does not depend on the window: key repeat, input
//! commands and the skill-tree viewport.
pub mod input_adapter;
pub mod skilltree_camera;
pub mod view_transitions;
pub mod run_tuning;
pub mod frame_update;
pub mod keyboard;
pub mod editor_keys;
