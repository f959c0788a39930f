use seldoon::vector_field::rewind_should_step;

#[test]
fn rewind_steps_only_inside_the_grid_with_live_flow() {
    assert!(rewind_should_step(true, false));
    assert!(!rewind_should_step(true, true));
    assert!(!rewind_should_step(false, false));
    assert!(!rewind_should_step(false, true));
}
