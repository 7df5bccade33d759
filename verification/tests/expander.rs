use flightpanel::encoder::{CountedPulse, EncoderDirection, EncoderState, PulseState};
use flightpanel::expander::{
    merge_port, port_address, EncoderStep, EncoderWatch, I2cTask, Panel,
};
use flightpanel::joystick::joystick_update;
use flightpanel::mapping::DeviceMapping;

const UP: EncoderDirection = EncoderDirection::Increment;
const QUIET: EncoderStep = EncoderStep { moved: None, pulse: None };

/// The bytes of the second expander with the contacts of the first encoder (lines 17 and 16) as
/// given. A closed contact is low.
fn port1(a: bool, b: bool) -> [u8; 2] {
    let mut low = 0xffu8;
    if a {
        low &= !0b10;
    }
    if b {
        low &= !0b01;
    }
    [low, 0xff]
}

#[test]
fn bus_addresses() {
    assert_eq!(port_address(0), 0x20);
    assert_eq!(port_address(1), 0x22);
    assert_eq!(port_address(2), 0x24);
    assert_eq!(port_address(3), 0x26);
}

#[test]
fn tasks_go_round() {
    let mut task = I2cTask::Poll(0);
    let mut seen = Vec::new();
    for _ in 0..5 {
        seen.push(task);
        task = task.next();
    }
    assert_eq!(
        seen,
        vec![
            I2cTask::Poll(0),
            I2cTask::Poll(1),
            I2cTask::Poll(2),
            I2cTask::Poll(3),
            I2cTask::Assemble,
        ]
    );
    assert_eq!(task, I2cTask::Poll(0));
    assert_eq!(I2cTask::Poll(usize::MAX).next(), I2cTask::Assemble);
}

#[test]
fn merging_replaces_sixteen_lines() {
    assert_eq!(merge_port(u64::MAX, 0, [0x34, 0x12]), 0xffff_ffff_ffff_1234);
    assert_eq!(merge_port(0, 3, [0x34, 0x12]), 0x1234_0000_0000_0000);
    assert_eq!(merge_port(0x1111_2222_3333_4444, 2, [0xcd, 0xab]), 0x1111_abcd_3333_4444);
}

#[test]
fn full_round_replaces_all_lines() {
    let mut left = 0;
    let mut right = 0xdead_beef_dead_beef;
    for (index, bytes) in [[1, 2], [3, 4], [5, 6], [7, 8]].into_iter().enumerate() {
        left = merge_port(left, index, bytes);
        right = merge_port(right, index, bytes);
    }
    assert_eq!(left, 0x0807_0605_0403_0201);
    assert_eq!(right, left);
}

#[test]
fn polling_has_no_effect_before_assembly() {
    let mapping = DeviceMapping::version1();
    let mut panel = Panel::new();
    let mut watch = EncoderWatch::new();
    panel.poll(1, port1(true, false));
    assert_eq!(panel.value, u64::MAX & !(1 << 17));
    assert_eq!(panel.final_value, u64::MAX);
    assert_eq!(panel.encoders[0], EncoderState::Idle);
    let steps = panel.assemble(&mapping, &mut watch, 700);
    assert_eq!(panel.final_value, u64::MAX & !(1 << 17));
    assert_eq!(panel.encoders[0], EncoderState::Ticking(UP));
    assert_eq!(steps[0], EncoderStep { moved: Some((true, false)), pulse: None });
    assert_eq!(steps[1], QUIET);
}

#[test]
fn assembly_times_the_round() {
    let mapping = DeviceMapping::version1();
    let mut panel = Panel::new();
    let mut watch = EncoderWatch::new();
    panel.assemble(&mapping, &mut watch, 1_000);
    assert_eq!(panel.duration, 1_000);
    panel.assemble(&mapping, &mut watch, 1_250);
    assert_eq!(panel.duration, 250);
    assert_eq!(panel.last_assemble_time, 1_250);
    panel.assemble(&mapping, &mut watch, 1_250);
    assert_eq!(panel.duration, 0);
}

#[test]
fn interrupts_take_effect_at_once() {
    let mapping = DeviceMapping::version1();
    let mut panel = Panel::new();
    let mut watch = EncoderWatch::new();
    panel.interrupt(&mapping, &mut watch, 1, port1(true, false));
    let steps = panel.interrupt(&mapping, &mut watch, 1, port1(true, true));
    assert_eq!(
        steps[0],
        EncoderStep {
            moved: Some((true, true)),
            pulse: Some(CountedPulse { direction: UP, count: 1 }),
        }
    );
    let steps = panel.interrupt(&mapping, &mut watch, 1, port1(true, true));
    assert_eq!(steps[0], QUIET);
    assert_eq!(panel.pulses[0].count, 1);
    assert_eq!(panel.pulses[0].direction, UP);
    assert_eq!(watch.count[0], 1);
    assert_eq!(watch.pin_state[0], (true, true));
    assert_eq!(panel.final_value, panel.value);
    assert_eq!(panel.duration, 0);
}

#[test]
fn counts_balance_waiting_pulses() {
    let mapping = DeviceMapping::version1();
    let mut panel = Panel::new();
    let mut watch = EncoderWatch::new();
    let mut reported = [0; 6];
    for _ in 0..3 {
        for (a, b) in [(true, false), (true, true), (false, true), (false, false)] {
            panel.interrupt(&mapping, &mut watch, 1, port1(a, b));
        }
        let lines = panel.final_value;
        joystick_update(&mapping, lines, &[0; 8], &mut panel.pulses, &mut reported);
        assert_eq!((watch.count[0] - reported[0]) as usize, panel.pulses[0].count);
    }
    assert_eq!(watch.count[0], 3);
    assert_eq!(reported[0], 3);
    assert_eq!(panel.pulses[0].count, 0);
}

#[test]
fn new_panel_is_at_rest() {
    let panel = Panel::new();
    assert_eq!(panel.value, u64::MAX);
    assert_eq!(panel.final_value, u64::MAX);
    assert_eq!(panel.encoders, [EncoderState::Idle; 6]);
    assert_eq!(panel.pulses, [PulseState { direction: EncoderDirection::Decrement, count: 0 }; 6]);
    assert_eq!((panel.last_assemble_time, panel.duration), (0, 0));
}

#[test]
fn full_counts_only_stop_a_reading_that_counts() {
    let mapping = DeviceMapping::version1();
    let mut panel = Panel::new();
    let mut watch = EncoderWatch::new();
    panel.interrupt(&mapping, &mut watch, 1, port1(true, false));
    let ticks = merge_port(panel.value, 1, port1(true, true));
    watch.count[0] = i32::MAX;
    assert!(panel.can_read(&mapping, panel.value, &watch));
    assert!(!panel.can_read(&mapping, ticks, &watch));
    watch.count[0] = 0;
    assert!(panel.can_read(&mapping, ticks, &watch));
    panel.pulses[0] = PulseState { direction: UP, count: usize::MAX };
    assert!(!panel.can_read(&mapping, ticks, &watch));
    panel.pulses[0].direction = EncoderDirection::Decrement;
    assert!(panel.can_read(&mapping, ticks, &watch));
}
