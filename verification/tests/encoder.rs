use flightpanel::encoder::{
    count_step, CountedPulse, EncoderDirection, EncoderState, PulseState,
};

const UP: EncoderDirection = EncoderDirection::Increment;
const DOWN: EncoderDirection = EncoderDirection::Decrement;

fn feed(state: &mut EncoderState, readings: &[(bool, bool)]) -> Vec<EncoderDirection> {
    let mut pulses = Vec::new();
    for &(a, b) in readings {
        if let Some(direction) = state.update(a, b) {
            pulses.push(direction);
        }
    }
    pulses
}

#[test]
fn pulses_queue_up_and_drain() {
    let mut state = PulseState::new();
    assert_eq!(state.pop(), None);
    state.push(UP);
    state.push(UP);
    state.push(UP);
    assert_eq!(state, PulseState { direction: UP, count: 3 });
    assert_eq!(state.pop(), Some(UP));
    assert_eq!(state.pop(), Some(UP));
    assert_eq!(state.pop(), Some(UP));
    assert_eq!(state.pop(), None);
}

#[test]
fn opposite_pulses_cancel() {
    let mut state = PulseState::new();
    state.push(UP);
    state.push(UP);
    state.push(DOWN);
    assert_eq!(state, PulseState { direction: UP, count: 1 });
    state.push(DOWN);
    assert_eq!(state.count, 0);
    assert_eq!(state.pop(), None);
    state.push(DOWN);
    assert_eq!(state, PulseState { direction: DOWN, count: 1 });
    assert_eq!(state.pop(), Some(DOWN));
}

#[test]
fn order_of_steps_does_not_matter() {
    let mut left = PulseState::new();
    for step in [UP, DOWN, DOWN, UP, DOWN] {
        left.push(step);
    }
    let mut right = PulseState::new();
    for step in [DOWN, DOWN, DOWN, UP, UP] {
        right.push(step);
    }
    assert_eq!(left.pop(), Some(DOWN));
    assert_eq!(left.pop(), None);
    assert_eq!(right.pop(), Some(DOWN));
    assert_eq!(right.pop(), None);
}

#[test]
fn detent_up_emits_one_increment() {
    let mut state = EncoderState::new();
    let turn = [(true, false), (true, true), (false, true), (false, false)];
    assert_eq!(feed(&mut state, &turn), vec![UP]);
    assert_eq!(state, EncoderState::Idle);
}

#[test]
fn detent_down_emits_one_decrement() {
    let mut state = EncoderState::new();
    let turn = [(false, true), (true, true), (true, false), (false, false)];
    assert_eq!(feed(&mut state, &turn), vec![DOWN]);
    assert_eq!(state, EncoderState::Idle);
}

#[test]
fn transitions_of_the_decoder() {
    let mut state = EncoderState::new();
    assert_eq!(state.update(true, false), None);
    assert_eq!(state, EncoderState::Ticking(UP));
    assert_eq!(state.update(false, false), None);
    assert_eq!(state, EncoderState::Idle);
    assert_eq!(state.update(true, false), None);
    assert_eq!(state.update(false, true), Some(UP));
    assert_eq!(state, EncoderState::Ticked(UP));
    assert_eq!(state.update(false, false), None);
    assert_eq!(state, EncoderState::Idle);
    assert_eq!(state.update(true, true), None);
    assert_eq!(state, EncoderState::AmbiguousMovement);
    assert_eq!(state.update(false, false), None);
    assert_eq!(state, EncoderState::AmbiguousMovement);
    assert_eq!(state.update(false, true), Some(UP));
    assert_eq!(state, EncoderState::Ticked(UP));
    assert_eq!(state.update(false, false), None);
    assert_eq!(state.update(true, true), None);
    assert_eq!(state.update(true, false), Some(DOWN));
    assert_eq!(state, EncoderState::Ticked(DOWN));
}

#[test]
fn one_pulse_until_the_contacts_open() {
    let mut state = EncoderState::Ticking(DOWN);
    assert_eq!(state.update(true, true), Some(DOWN));
    let held = [(true, true), (true, false), (true, true), (false, true), (true, false)];
    assert_eq!(feed(&mut state, &held), vec![]);
    assert_eq!(state, EncoderState::Ticked(DOWN));
}

#[test]
fn repeated_readings_are_silent() {
    for state in [
        EncoderState::Idle,
        EncoderState::Ticking(UP),
        EncoderState::Ticking(DOWN),
        EncoderState::Ticked(UP),
        EncoderState::Ticked(DOWN),
        EncoderState::AmbiguousMovement,
    ] {
        for (a, b) in [(false, false), (false, true), (true, false), (true, true)] {
            let mut once = state;
            once.update(a, b);
            let mut twice = once;
            assert_eq!(twice.update(a, b), None);
            assert_eq!(once, twice);
        }
    }
}

#[test]
fn contacts_swapped_swap_the_direction() {
    let turn = [(true, true), (false, true), (false, false), (true, false), (false, true)];
    let swapped: Vec<(bool, bool)> = turn.iter().map(|&(a, b)| (b, a)).collect();
    let mut left = EncoderState::new();
    let mut right = EncoderState::new();
    assert_eq!(feed(&mut left, &turn), vec![UP, UP]);
    assert_eq!(feed(&mut right, &swapped), vec![DOWN, DOWN]);
}

#[test]
fn counting_steps() {
    assert_eq!(count_step(0, UP), 1);
    assert_eq!(count_step(0, DOWN), -1);
    assert_eq!(count_step(i32::MAX, DOWN), i32::MAX - 1);
    let pulse = CountedPulse { direction: UP, count: 7 };
    assert_eq!(pulse.count, 7);
}
