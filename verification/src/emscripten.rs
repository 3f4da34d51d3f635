//! How the game asks a browser for the whole screen.

use vstd::prelude::*;

verus! {

/// The canvas keeps its proportions.
pub const EMSCRIPTEN_FULLSCREEN_SCALE_DEFAULT: i32 = 0;

/// The canvas is stretched over the screen.
pub const EMSCRIPTEN_FULLSCREEN_SCALE_STRETCH: i32 = 1;

/// The canvas fills the screen as far as its proportions allow.
pub const EMSCRIPTEN_FULLSCREEN_SCALE_ASPECT: i32 = 2;

/// The canvas is centred and keeps its size.
pub const EMSCRIPTEN_FULLSCREEN_SCALE_CENTER: i32 = 3;

/// The canvas keeps its resolution.
pub const EMSCRIPTEN_FULLSCREEN_CANVAS_SCALE_NONE: i32 = 0;

/// The canvas has one pixel for each CSS pixel.
pub const EMSCRIPTEN_FULLSCREEN_CANVAS_SCALE_STDDEF: i32 = 1;

/// The canvas has one pixel for each pixel of the screen.
pub const EMSCRIPTEN_FULLSCREEN_CANVAS_SCALE_HIDEF: i32 = 2;

/// The browser picks the filter.
pub const EMSCRIPTEN_FULLSCREEN_FILTERING_DEFAULT: i32 = 0;

/// Nearest pixel.
pub const EMSCRIPTEN_FULLSCREEN_FILTERING_NEAREST: i32 = 1;

/// Bilinear.
pub const EMSCRIPTEN_FULLSCREEN_FILTERING_BILINEAR: i32 = 2;

/// What a browser is told when the game asks for the whole screen.
#[derive(Clone, Copy, PartialEq, Eq, Structural, Debug)]
pub struct EmscriptenFullscreenStrategy {
    pub scale_mode: i32,
    pub canvas_resolution_scale_mode: i32,
    pub filtering_mode: i32,
}

/// The strategy of the game: proportions kept, one pixel for each CSS pixel,
/// the browser's own filter.
pub open spec fn soft_fullscreen() -> EmscriptenFullscreenStrategy {
    EmscriptenFullscreenStrategy {
        scale_mode: EMSCRIPTEN_FULLSCREEN_SCALE_DEFAULT,
        canvas_resolution_scale_mode: EMSCRIPTEN_FULLSCREEN_CANVAS_SCALE_STDDEF,
        filtering_mode: EMSCRIPTEN_FULLSCREEN_FILTERING_DEFAULT,
    }
}

/// The strategy to hand to the browser when the game asks for the whole
/// screen.
pub fn request_soft_fullscreen_strategy() -> (strategy: EmscriptenFullscreenStrategy)
    ensures
        strategy == soft_fullscreen(),
{
    EmscriptenFullscreenStrategy {
        scale_mode: EMSCRIPTEN_FULLSCREEN_SCALE_DEFAULT,
        canvas_resolution_scale_mode: EMSCRIPTEN_FULLSCREEN_CANVAS_SCALE_STDDEF,
        filtering_mode: EMSCRIPTEN_FULLSCREEN_FILTERING_DEFAULT,
    }
}

/// What to ask of the screen before the window is made: in a browser the
/// game's strategy, elsewhere nothing.
pub fn configure_fullscreen_strategy(in_browser: bool) -> (asked: Option<
    EmscriptenFullscreenStrategy,
>)
    ensures
        asked == if in_browser {
            Some(soft_fullscreen())
        } else {
            None
        },
{
    if in_browser {
        Some(request_soft_fullscreen_strategy())
    } else {
        None
    }
}

} // verus!
