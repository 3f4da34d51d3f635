use airjump::emscripten::configure_fullscreen_strategy;
use airjump::emscripten::request_soft_fullscreen_strategy;
use airjump::emscripten::EmscriptenFullscreenStrategy;

#[test]
fn soft_fullscreen_keeps_proportions_at_standard_resolution() {
    assert_eq!(
        request_soft_fullscreen_strategy(),
        EmscriptenFullscreenStrategy {
            scale_mode: 0,
            canvas_resolution_scale_mode: 1,
            filtering_mode: 0
        }
    );
}

#[test]
fn strategy_is_asked_for_in_a_browser_only() {
    assert_eq!(configure_fullscreen_strategy(true), Some(request_soft_fullscreen_strategy()));
    assert_eq!(configure_fullscreen_strategy(false), None);
}
