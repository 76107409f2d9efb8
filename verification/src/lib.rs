use vstd::prelude::*;

pub mod agent;
pub mod background;
pub mod counter;
pub mod debug;
pub mod editor_actions;
pub mod editor_api;
pub mod gpu_renderer;
pub mod headful;
pub mod piece;
pub mod perf_budget;
pub mod playtest;
pub mod rng;
pub mod skilltree;
pub mod state;
pub mod round_timer;
pub mod settings;
pub mod tetris_core;
pub mod time_span;
