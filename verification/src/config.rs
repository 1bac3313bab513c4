use vstd::prelude::*;

use std::time::Duration;

use crate::misc::ICoord;

verus! {

/// The kinds of game window.
#[derive(Clone, Copy, Debug, PartialEq, Eq, Structural)]
pub enum WindowType {
    /// True fullscreen.
    Fullscreen,
    /// Basic windowed.
    Windowed,
    /// Windowed stretched to the dimensions of the monitor.
    WindowedFullscreen,
}

/// The engine's configuration.
#[derive(Debug)]
pub struct Config {
    /// Whether to render the full frame vignette.
    pub enable_vignette: bool,
    /// The kind of window to create.
    pub window_type: WindowType,
    /// Name of the font to use.
    pub font_name: String,
    /// Minimum size of the game window.
    pub minimum_window_dimensions: ICoord,
    /// Interval at which to render frames, or none for as fast as possible.
    pub render_interval: Option<Duration>,
    /// Interval to sleep when the render interval has not been met.
    pub sleep_interval: Duration,
    /// Whether to display the current fps.
    pub show_fps: bool,
    /// Dimensions (in tiles) of the terminal.
    pub terminal_dimensions: ICoord,
    /// Dimensions (in pixels) of each tile.
    pub tile_dimensions: ICoord,
    /// Interval to update the game state.
    pub update_interval: Duration,
    /// Whether to alternate rendering from / uploading data to separate VBOs.
    pub use_alternating_vbos: bool,
    /// Whether to use signed distance field font rendering.
    pub use_sdf_fonts: bool,
    /// Dimensions (in pixels) of the game window.
    pub window_dimensions: ICoord,
}

} // verus!
