use mentabotix::delay::BreakerDelay;
use mentabotix::delay::DelayStep;
use mentabotix::graph::Botix;
use mentabotix::graph::StructuralError;
use mentabotix::ids::IdAllocator;
use mentabotix::state::MovingState;
use mentabotix::transition::MovingTransition;

fn sorted(mut v: Vec<usize>) -> Vec<usize> {
    v.sort();
    v
}

#[test]
fn start_states_of_single_edge() {
    let mut states = IdAllocator::new();
    let mut transitions = IdAllocator::new();
    let a = MovingState::straight(10, &mut states);
    let b = MovingState::halt(&mut states);
    let a_id = a.id();
    let b_id = b.id();
    let t = MovingTransition::new(1000, &mut transitions)
        .unwrap()
        .with_from_state(a)
        .with_to_state(String::from("next"), b);
    let mut bot = Botix::new();
    bot.add_transition(t);
    assert_eq!(bot.start_states(), vec![a_id]);
    assert_eq!(bot.end_states(), vec![b_id]);
}

#[test]
fn adding_edge_into_start_removes_it() {
    let mut states = IdAllocator::new();
    let mut transitions = IdAllocator::new();
    let a = MovingState::straight(10, &mut states);
    let b = MovingState::halt(&mut states);
    let a_id = a.id();
    let t1 = MovingTransition::new(500, &mut transitions)
        .unwrap()
        .with_from_state(a.clone())
        .with_to_state(String::from("next"), b.clone());
    let mut bot = Botix::new();
    bot.add_transition(t1);
    assert!(bot.start_states().contains(&a_id));
    // a transition that targets the former start state
    let t2 = MovingTransition::new(500, &mut transitions)
        .unwrap()
        .with_from_state(b)
        .with_to_state(String::from("back"), a);
    bot.add_transition(t2);
    assert!(!bot.start_states().contains(&a_id));
    assert!(bot.start_states().is_empty());
}

#[test]
fn linear_chain_has_one_start_and_one_end() {
    let mut states = IdAllocator::new();
    let mut transitions = IdAllocator::new();
    let chain: Vec<MovingState> =
        (0..4).map(|k| MovingState::straight(k * 10, &mut states)).collect();
    let first = chain[0].id();
    let last = chain[3].id();
    let mut bot = Botix::new();
    for k in 0..3 {
        let t = MovingTransition::new(100, &mut transitions)
            .unwrap()
            .with_from_state(chain[k].clone())
            .with_to_state(String::from("next"), chain[k + 1].clone());
        bot.add_transition(t);
    }
    assert_eq!(bot.start_states(), vec![first]);
    assert_eq!(bot.end_states(), vec![last]);
    assert!(bot.validate().is_ok());
}

#[test]
fn validate_empty_pool_has_no_start() {
    let bot = Botix::new();
    assert_eq!(bot.validate(), Err(StructuralError::NoStartState));
}

#[test]
fn validate_cycle_has_no_start() {
    let mut states = IdAllocator::new();
    let mut transitions = IdAllocator::new();
    let a = MovingState::straight(10, &mut states);
    let b = MovingState::straight(20, &mut states);
    let t1 = MovingTransition::new(100, &mut transitions)
        .unwrap()
        .with_from_state(a.clone())
        .with_to_state(String::from("next"), b.clone());
    let t2 = MovingTransition::new(100, &mut transitions)
        .unwrap()
        .with_from_state(b)
        .with_to_state(String::from("next"), a);
    let mut bot = Botix::new();
    bot.add_transition(t1);
    bot.add_transition(t2);
    assert_eq!(bot.validate(), Err(StructuralError::NoStartState));
}

#[test]
fn validate_two_chains_is_ambiguous() {
    let mut states = IdAllocator::new();
    let mut transitions = IdAllocator::new();
    let mut bot = Botix::new();
    for _ in 0..2 {
        let a = MovingState::straight(10, &mut states);
        let b = MovingState::halt(&mut states);
        let t = MovingTransition::new(100, &mut transitions)
            .unwrap()
            .with_from_state(a)
            .with_to_state(String::from("next"), b);
        bot.add_transition(t);
    }
    assert_eq!(bot.validate(), Err(StructuralError::MultipleStartStates));
}

#[test]
fn fan_in_many_sources_one_destination() {
    let mut states = IdAllocator::new();
    let mut transitions = IdAllocator::new();
    let a = MovingState::straight(10, &mut states);
    let b = MovingState::straight(20, &mut states);
    let c = MovingState::halt(&mut states);
    let c_id = c.id();
    let t = MovingTransition::new(100, &mut transitions)
        .unwrap()
        .with_from_state(a)
        .with_from_state(b)
        .with_to_state(String::from("done"), c);
    let mut bot = Botix::new();
    bot.add_transition(t);
    // two sources with in-degree zero: ambiguous start
    assert_eq!(bot.validate(), Err(StructuralError::MultipleStartStates));
    assert_eq!(bot.end_states(), vec![c_id]);
}

#[test]
fn fan_out_branches_keep_one_start() {
    let mut states = IdAllocator::new();
    let mut transitions = IdAllocator::new();
    let a = MovingState::straight(10, &mut states);
    let left = MovingState::straight(20, &mut states);
    let right = MovingState::straight(30, &mut states);
    let a_id = a.id();
    let left_id = left.id();
    let right_id = right.id();
    let t = MovingTransition::new(100, &mut transitions)
        .unwrap()
        .with_from_state(a)
        .with_to_state(String::from("left"), left)
        .with_to_state(String::from("right"), right);
    let mut bot = Botix::new();
    bot.add_transition(t);
    assert_eq!(bot.start_states(), vec![a_id]);
    assert_eq!(sorted(bot.end_states()), sorted(vec![left_id, right_id]));
    assert!(bot.validate().is_ok());
}

#[test]
fn remove_transition_filters_by_id() {
    let mut states = IdAllocator::new();
    let mut transitions = IdAllocator::new();
    let a = MovingState::straight(10, &mut states);
    let b = MovingState::halt(&mut states);
    let t1 = MovingTransition::new(100, &mut transitions)
        .unwrap()
        .with_from_state(a.clone())
        .with_to_state(String::from("next"), b.clone());
    let t2 = MovingTransition::new(200, &mut transitions)
        .unwrap()
        .with_from_state(b)
        .with_to_state(String::from("back"), a);
    let t1_id = t1.id();
    let t2_id = t2.id();
    let mut bot = Botix::new();
    bot.add_transition(t1);
    bot.add_transition(t2);
    assert_eq!(bot.transitions().len(), 2);
    bot.remove_transition(t1_id);
    assert_eq!(bot.transitions().len(), 1);
    assert_eq!(bot.transitions()[0].id(), t2_id);
    // removing an id the pool does not hold changes nothing
    bot.remove_transition(t1_id);
    assert_eq!(bot.transitions().len(), 1);
}

#[test]
fn extend_and_clear_transitions() {
    let mut states = IdAllocator::new();
    let mut transitions = IdAllocator::new();
    let a = MovingState::straight(10, &mut states);
    let b = MovingState::halt(&mut states);
    let t1 = MovingTransition::new(100, &mut transitions).unwrap().with_from_state(a);
    let t2 = MovingTransition::new(200, &mut transitions).unwrap().with_from_state(b);
    let mut bot = Botix::new();
    bot.extend_transitions(vec![t1, t2]);
    assert_eq!(bot.transitions().len(), 2);
    bot.clear_transitions();
    assert_eq!(bot.transitions().len(), 0);
    assert!(bot.start_states().is_empty());
    assert!(bot.end_states().is_empty());
}

#[test]
fn next_transition_index_walks_the_chain() {
    let mut states = IdAllocator::new();
    let mut transitions = IdAllocator::new();
    let a = MovingState::straight(10, &mut states);
    let b = MovingState::straight(20, &mut states);
    let c = MovingState::halt(&mut states);
    let a_id = a.id();
    let b_id = b.id();
    let c_id = c.id();
    let t1 = MovingTransition::new(100, &mut transitions)
        .unwrap()
        .with_from_state(a)
        .with_to_state(String::from("next"), b.clone());
    let t2 = MovingTransition::new(100, &mut transitions)
        .unwrap()
        .with_from_state(b)
        .with_to_state(String::from("next"), c);
    let mut bot = Botix::new();
    bot.add_transition(t1);
    bot.add_transition(t2);
    assert_eq!(bot.next_transition_index(a_id), Some(0));
    assert_eq!(bot.next_transition_index(b_id), Some(1));
    assert_eq!(bot.next_transition_index(c_id), None);
}

#[test]
fn sequencing_protocol_reaches_the_end_state() {
    let mut states = IdAllocator::new();
    let mut transitions = IdAllocator::new();
    let a = MovingState::straight(10, &mut states);
    let b = MovingState::straight(20, &mut states);
    let c = MovingState::halt(&mut states);
    let a_id = a.id();
    let c_id = c.id();
    let t1 = MovingTransition::new(100, &mut transitions)
        .unwrap()
        .with_check_interval(25)
        .with_from_state(a)
        .with_to_state(String::from("next"), b.clone());
    let t2 = MovingTransition::new(50, &mut transitions)
        .unwrap()
        .with_check_interval(25)
        .with_from_state(b)
        .with_to_state(String::from("next"), c);
    let mut bot = Botix::new();
    bot.add_transition(t1);
    bot.add_transition(t2);
    bot.validate().unwrap();

    // walk the graph as a runner would, counting wait time instead of
    // sleeping
    let mut current = bot.start_states()[0];
    assert_eq!(current, a_id);
    let mut total_wait: u64 = 0;
    let mut steps = 0;
    while let Some(idx) = bot.next_transition_index(current) {
        let t = &bot.transitions()[idx];
        let mut wait = BreakerDelay::new(t.duration_ms(), t.check_interval_ms());
        loop {
            match wait.poll(false) {
                DelayStep::Done => break,
                DelayStep::Sleep(ms) => total_wait += ms,
            }
        }
        let (label, next) = &t.to_states()[0];
        assert_eq!(label, "next");
        current = next.id();
        steps += 1;
    }
    assert_eq!(steps, 2);
    assert_eq!(current, c_id);
    assert_eq!(total_wait, 150);
}

#[test]
fn start_states_deduplicates_shared_source() {
    let mut states = IdAllocator::new();
    let mut transitions = IdAllocator::new();
    let a = MovingState::straight(10, &mut states);
    let b = MovingState::straight(20, &mut states);
    let c = MovingState::straight(30, &mut states);
    let a_id = a.id();
    let t1 = MovingTransition::new(100, &mut transitions)
        .unwrap()
        .with_from_state(a.clone())
        .with_to_state(String::from("one"), b);
    let t2 = MovingTransition::new(100, &mut transitions)
        .unwrap()
        .with_from_state(a)
        .with_to_state(String::from("two"), c);
    let mut bot = Botix::new();
    bot.add_transition(t1);
    bot.add_transition(t2);
    assert_eq!(bot.start_states(), vec![a_id]);
    assert!(bot.validate().is_ok());
}
