use mentabotix::ids::IdAllocator;
use mentabotix::pattern::FixedAxis;
use mentabotix::pattern::PatternType;
use mentabotix::pattern::Scale;
use mentabotix::pattern::SpeedPattern;
use mentabotix::pattern::TurnDirection;
use mentabotix::state::MovingState;

#[test]
fn to_array_uniform() {
    assert_eq!(SpeedPattern::Uniform(7).to_array(), [7, 7, 7, 7]);
}

#[test]
fn to_array_left_right() {
    let p = SpeedPattern::LeftRight { left: -3, right: 4 };
    assert_eq!(p.to_array(), [-3, -3, 4, 4]);
}

#[test]
fn to_array_per_wheel() {
    let p = SpeedPattern::PerWheel { front_left: 1, rear_left: 2, front_right: 3, rear_right: 4 };
    assert_eq!(p.to_array(), [1, 2, 3, 4]);
}

#[test]
fn pattern_types() {
    assert_eq!(SpeedPattern::Uniform(0).pattern_type(), PatternType::Uniform);
    assert_eq!(SpeedPattern::LeftRight { left: 0, right: 0 }.pattern_type(), PatternType::LeftRight);
    assert_eq!(
        SpeedPattern::PerWheel { front_left: 0, rear_left: 0, front_right: 0, rear_right: 0 }
            .pattern_type(),
        PatternType::PerWheel
    );
}

#[test]
fn halt_is_uniform_zero() {
    let mut ids = IdAllocator::new();
    let s = MovingState::halt(&mut ids);
    assert_eq!(s.speed_pattern(), SpeedPattern::Uniform(0));
    assert_eq!(s.speeds(), [0, 0, 0, 0]);
}

#[test]
fn straight_keeps_speed() {
    let mut ids = IdAllocator::new();
    let s = MovingState::straight(42, &mut ids);
    assert_eq!(s.speed_pattern(), SpeedPattern::Uniform(42));
}

#[test]
fn turn_left_flips_left_side() {
    let mut ids = IdAllocator::new();
    let s = MovingState::turn(TurnDirection::Left, 30, &mut ids);
    assert_eq!(s.speed_pattern(), SpeedPattern::LeftRight { left: -30, right: 30 });
}

#[test]
fn turn_right_flips_right_side() {
    let mut ids = IdAllocator::new();
    let s = MovingState::turn(TurnDirection::Right, 30, &mut ids);
    assert_eq!(s.speed_pattern(), SpeedPattern::LeftRight { left: 30, right: -30 });
}

#[test]
fn differential_left_default_track_width() {
    let mut ids = IdAllocator::new();
    let s = MovingState::differential(TurnDirection::Left, 100, 200, &mut ids);
    assert_eq!(s.speed_pattern(), SpeedPattern::LeftRight { left: 100, right: 200 });
}

#[test]
fn differential_right_mirrors_sides() {
    let mut ids = IdAllocator::new();
    let s = MovingState::differential(TurnDirection::Right, 100, 200, &mut ids);
    assert_eq!(s.speed_pattern(), SpeedPattern::LeftRight { left: 200, right: 100 });
}

#[test]
fn differential_truncates_toward_zero() {
    let mut ids = IdAllocator::new();
    // inner = 50 * 100 / (50 + 100) = 33.33... truncated to 33
    let s = MovingState::differential(TurnDirection::Left, 50, 100, &mut ids);
    assert_eq!(s.speed_pattern(), SpeedPattern::LeftRight { left: 33, right: 100 });
}

#[test]
fn drift_front_left_default_multiplier() {
    let mut ids = IdAllocator::new();
    let s = MovingState::drift(FixedAxis::FrontLeft, 100, &mut ids);
    assert_eq!(
        s.speed_pattern(),
        SpeedPattern::PerWheel { front_left: 0, rear_left: 100, front_right: 153, rear_right: 100 }
    );
}

#[test]
fn drift_rear_right_places_zero_and_diagonal() {
    let mut ids = IdAllocator::new();
    let s = MovingState::drift(FixedAxis::RearRight, 100, &mut ids);
    assert_eq!(
        s.speed_pattern(),
        SpeedPattern::PerWheel { front_left: 153, rear_left: 100, front_right: 0, rear_right: 100 }
    );
}

#[test]
fn with_multiplier_doubles_uniform() {
    let mut ids = IdAllocator::new();
    let s = MovingState::straight(50, &mut ids);
    let s = s.with_multiplier(Scale::from_int(2));
    assert_eq!(s.speed_pattern(), SpeedPattern::Uniform(100));
}

#[test]
fn with_multiplier_doubles_left_right() {
    let mut ids = IdAllocator::new();
    let s = MovingState::new(SpeedPattern::LeftRight { left: 3, right: -4 }, &mut ids);
    let s = s.with_multiplier(Scale::from_int(2));
    assert_eq!(s.speed_pattern(), SpeedPattern::LeftRight { left: 6, right: -8 });
}

#[test]
fn with_multiplier_keeps_identity() {
    let mut ids = IdAllocator::new();
    let s = MovingState::straight(50, &mut ids);
    let id = s.id();
    let s = s.with_multiplier(Scale::new(153, 100));
    assert_eq!(s.id(), id);
    assert_eq!(s.speed_pattern(), SpeedPattern::Uniform(76));
}

#[test]
fn with_multiplier_fraction_truncates_toward_zero() {
    let mut ids = IdAllocator::new();
    let s = MovingState::new(SpeedPattern::LeftRight { left: -5, right: 5 }, &mut ids);
    let s = s.with_multiplier(Scale::new(1, 2));
    assert_eq!(s.speed_pattern(), SpeedPattern::LeftRight { left: -2, right: 2 });
}
