//! Verified core of the fvr engine: grid geometry, directions, lines, grid maps,
//! rich text parsing and the state of the text widgets.
pub mod misc;
pub mod direction;
pub mod adjacency;
pub mod distance;
pub mod rect;
pub mod lines;
pub mod map2d;
pub mod translate_map;
pub mod palette;
pub mod tile;
pub mod timer;
pub mod input;
pub mod input_manager;
pub mod font_metrics;
pub mod rich_text;
pub mod states;
pub mod widgets;
pub mod config;
pub mod server;
pub mod atlas;
