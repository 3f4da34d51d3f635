use airjump::graphics::Layer;

#[test]
fn billboard_is_the_only_fixed_layer() {
    assert!(Layer::Billboard.billboard());
    assert!(!Layer::World.billboard());
}
