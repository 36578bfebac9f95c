use ngc_geometry::profile::{Derivative, RampMode};

#[test]
fn ramp_is_idle_without_steps() {
    for &(stop, above, reached) in
        [(0, false, false), (5, true, false), (0, false, true), (9, true, true)].iter()
    {
        assert_eq!(RampMode::compute(0, stop, above, reached), RampMode::Idle);
    }
}

#[test]
fn ramp_goes_down_when_room_runs_out() {
    assert_eq!(RampMode::compute(5, 5, false, false), RampMode::RampDown);
    assert_eq!(RampMode::compute(5, 9, false, true), RampMode::RampDown);
    assert_eq!(RampMode::compute(1, u32::MAX, false, false), RampMode::RampDown);
}

#[test]
fn ramp_follows_the_velocity_when_there_is_room() {
    assert_eq!(RampMode::compute(6, 5, true, false), RampMode::RampDown);
    assert_eq!(RampMode::compute(6, 5, false, true), RampMode::Plateau);
    assert_eq!(RampMode::compute(6, 5, false, false), RampMode::RampUp);
    assert_eq!(RampMode::compute(6, 0, true, true), RampMode::RampDown);
}

#[test]
fn derivative_orders() {
    assert_eq!(Derivative::Position as u8, 0);
    assert_eq!(Derivative::Velocity as u8, 1);
    assert_eq!(Derivative::Acceleration as u8, 2);
    assert_eq!(Derivative::Jerk as u8, 3);
}
