use std::collections::hash_map::DefaultHasher;
use std::hash::Hash;
use std::hash::Hasher;

use mentabotix::arrow::ArrowStyle;
use mentabotix::ids::IdAllocator;
use mentabotix::motor::MotorInfo;
use mentabotix::motor::motor_infos_unique;
use mentabotix::motor::usb_id_matches;
use mentabotix::pattern::SpeedPattern;
use mentabotix::sampling::MentaError;
use mentabotix::sampling::SamplerKind;
use mentabotix::sampling::SamplerUsage;
use mentabotix::sampling::UpdaterPlan;
use mentabotix::sampling::bit_at;
use mentabotix::sampling::plan_for;
use mentabotix::sampling::select_usage;
use mentabotix::state::MovingState;
use mentabotix::transition::MovingTransition;
use mentabotix::transition::TransitionError;

fn hash_of<T: Hash>(value: &T) -> u64 {
    let mut hasher = DefaultHasher::new();
    value.hash(&mut hasher);
    hasher.finish()
}

#[test]
fn negative_duration_is_rejected() {
    let mut ids = IdAllocator::new();
    // a duration of -1.0 seconds
    let r = MovingTransition::new(-1000, &mut ids);
    assert!(matches!(r, Err(TransitionError::InvalidDuration)));
    let r = MovingTransition::new(-1, &mut ids);
    assert!(matches!(r, Err(TransitionError::InvalidDuration)));
    assert!(MovingTransition::new(0, &mut ids).is_ok());
}

#[test]
fn transition_defaults_and_builders() {
    let mut ids = IdAllocator::new();
    let t = MovingTransition::new(1500, &mut ids).unwrap();
    assert_eq!(t.duration_ms(), 1500);
    assert_eq!(t.check_interval_ms(), 10);
    assert_eq!(t.breaker(), None);
    assert!(t.from_states().is_empty());
    assert!(t.to_states().is_empty());
    let t = t.with_breaker(7).with_check_interval(25);
    assert_eq!(t.breaker(), Some(7));
    assert_eq!(t.check_interval_ms(), 25);
}

#[test]
fn transition_ids_are_sequential() {
    let mut ids = IdAllocator::new();
    let t1 = MovingTransition::new(100, &mut ids).unwrap();
    let t2 = MovingTransition::new(100, &mut ids).unwrap();
    assert_ne!(t1.id(), t2.id());
    assert!(t1 != t2);
}

#[test]
fn reused_label_overwrites_destination() {
    let mut states = IdAllocator::new();
    let mut transitions = IdAllocator::new();
    let a = MovingState::halt(&mut states);
    let b = MovingState::halt(&mut states);
    let b_id = b.id();
    let t = MovingTransition::new(100, &mut transitions)
        .unwrap()
        .with_to_state(String::from("next"), a)
        .with_to_state(String::from("next"), b);
    assert_eq!(t.to_states().len(), 1);
    assert_eq!(t.to_states()[0].0, "next");
    assert_eq!(t.to_states()[0].1.id(), b_id);
}

#[test]
fn identical_patterns_are_distinct_states() {
    let mut ids = IdAllocator::new();
    let s1 = MovingState::new(SpeedPattern::Uniform(50), &mut ids);
    let s2 = MovingState::new(SpeedPattern::Uniform(50), &mut ids);
    assert_ne!(s1.id(), s2.id());
    assert!(s1 != s2);
    assert_ne!(hash_of(&s1), hash_of(&s2));
}

#[test]
fn state_hooks_keep_order() {
    let mut ids = IdAllocator::new();
    let mut s = MovingState::halt(&mut ids);
    s.add_before_hook(11);
    s.add_before_hook(12);
    s.add_after_hook(21);
    assert_eq!(s.before_hooks(), &vec![11u64, 12u64]);
    assert_eq!(s.after_hooks(), &vec![21u64]);
}

#[test]
fn id_allocator_counts_up() {
    let mut ids = IdAllocator::new();
    assert_eq!(ids.fresh(), 0);
    assert_eq!(ids.fresh(), 1);
    assert_eq!(ids.fresh(), 2);
}

#[test]
fn arrow_style_from_str() {
    assert_eq!(ArrowStyle::from_str("up"), Ok(ArrowStyle::Up));
    assert_eq!(ArrowStyle::from_str("down"), Ok(ArrowStyle::Down));
    assert_eq!(ArrowStyle::from_str("left"), Ok(ArrowStyle::Left));
    assert_eq!(ArrowStyle::from_str("right"), Ok(ArrowStyle::Right));
    assert_eq!(
        ArrowStyle::from_str("sideways").unwrap_err(),
        "Must be one of [up, down, left, right]"
    );
}

#[test]
fn arrow_style_as_str() {
    assert_eq!(ArrowStyle::Down.as_str(), "-->");
    assert_eq!(ArrowStyle::Left.as_str(), "-left->");
    assert_eq!(ArrowStyle::Right.as_str(), "-right->");
    assert_eq!(ArrowStyle::Up.as_str(), "-up->");
    assert_eq!(ArrowStyle::default(), ArrowStyle::Down);
}

#[test]
fn motor_info_construction() {
    let m = MotorInfo::new(3, -1);
    assert_eq!(m.code_sign, 3);
    assert_eq!(m.direction, -1);
    let d = MotorInfo::default();
    assert_eq!(d, MotorInfo::new(1, 1));
}

#[test]
fn duplicate_motor_infos_are_detected() {
    let unique = vec![MotorInfo::new(1, 1), MotorInfo::new(2, 1), MotorInfo::new(3, -1)];
    assert!(motor_infos_unique(&unique));
    let doubled = vec![MotorInfo::new(1, 1), MotorInfo::new(2, 1), MotorInfo::new(1, 1)];
    assert!(!motor_infos_unique(&doubled));
    // same code with another direction is a different motor
    let mixed = vec![MotorInfo::new(1, 1), MotorInfo::new(1, -1)];
    assert!(motor_infos_unique(&mixed));
}

#[test]
fn usb_id_matching_treats_zero_as_any() {
    assert!(usb_id_matches(0, 0, 0x7523, 0x1a86));
    assert!(usb_id_matches(0x7523, 0x1a86, 0x7523, 0x1a86));
    assert!(!usb_id_matches(0x7523, 0x1a86, 0x7523, 0x1a87));
    assert!(!usb_id_matches(0x7524, 0x1a86, 0x7523, 0x1a86));
    assert!(usb_id_matches(0, 0x1a86, 0x7523, 0x1a86));
    assert!(usb_id_matches(0x7523, 0, 0x7523, 0x1a86));
}

#[test]
fn select_usage_errors() {
    let none: Vec<SamplerUsage> = Vec::new();
    assert_eq!(select_usage(&none, 3).unwrap_err(), MentaError::EmptyUsageList);
    let out = vec![SamplerUsage::new(3, vec![0])];
    assert_eq!(select_usage(&out, 3).unwrap_err(), MentaError::SamplerIndexOutOfBounds);
    let ok = vec![SamplerUsage::new(2, vec![0, 1])];
    let usage = select_usage(&ok, 3).unwrap();
    assert_eq!(usage.used_sampler_index, 2);
    assert_eq!(usage.required_data_indexes, vec![0, 1]);
}

#[test]
fn plans_for_sequence_sampler() {
    assert_eq!(plan_for(SamplerKind::Sequence, &vec![]).unwrap(), UpdaterPlan::FullSequence);
    assert_eq!(
        plan_for(SamplerKind::Sequence, &vec![4]).unwrap(),
        UpdaterPlan::SingleFromSequence(4)
    );
    assert_eq!(
        plan_for(SamplerKind::Sequence, &vec![1, 3]).unwrap(),
        UpdaterPlan::SubsetOfSequence(vec![1, 3])
    );
}

#[test]
fn plans_for_indexed_sampler() {
    assert_eq!(
        plan_for(SamplerKind::Indexed, &vec![]).unwrap_err(),
        MentaError::NoDataIndexes
    );
    assert_eq!(plan_for(SamplerKind::Indexed, &vec![2]).unwrap(), UpdaterPlan::SingleIndexed(2));
    assert_eq!(
        plan_for(SamplerKind::Indexed, &vec![0, 2]).unwrap(),
        UpdaterPlan::ManyIndexed(vec![0, 2])
    );
}

#[test]
fn plans_for_direct_sampler() {
    assert_eq!(plan_for(SamplerKind::Direct, &vec![]).unwrap(), UpdaterPlan::DirectValue);
    assert_eq!(plan_for(SamplerKind::Direct, &vec![5]).unwrap(), UpdaterPlan::DirectBit(5));
    assert_eq!(
        plan_for(SamplerKind::Direct, &vec![0, 1, 2]).unwrap(),
        UpdaterPlan::DirectBits(vec![0, 1, 2])
    );
}

#[test]
fn bit_extraction() {
    assert_eq!(bit_at(0b1010, 0), 0);
    assert_eq!(bit_at(0b1010, 1), 1);
    assert_eq!(bit_at(0b1010, 2), 0);
    assert_eq!(bit_at(0b1010, 3), 1);
    assert_eq!(bit_at(-1, 63), 1);
    assert_eq!(bit_at(i64::MAX, 63), 0);
}
