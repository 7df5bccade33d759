use flightpanel::bits::{byte_of, line_low, with_bit};
use flightpanel::encoder::{CountedPulse, EncoderDirection, PulseState};
use flightpanel::joystick::{
    assemble_report, can_count, joystick_report, joystick_update, read_buttons, JoyReport,
};
use flightpanel::mapping::DeviceMapping;

const ALL_HIGH: u64 = u64::MAX;

fn no_pulses() -> [PulseState; 6] {
    [PulseState::new(); 6]
}

fn buttons_for(lines: u64) -> u64 {
    let mapping = DeviceMapping::version1();
    read_buttons(&mapping, lines, &mut no_pulses()).0
}

#[test]
fn single_bits() {
    assert!(line_low(0, 63));
    assert!(!line_low(1 << 63, 63));
    assert_eq!(with_bit(0, 63), 1 << 63);
    assert_eq!(with_bit(0b101, 1), 0b111);
    assert_eq!(with_bit(0b101, 2), 0b101);
    assert_eq!(byte_of(0x0123_4567_89ab_cdef, 0), 0xef);
    assert_eq!(byte_of(0x0123_4567_89ab_cdef, 7), 0x01);
}

#[test]
fn nothing_closed_gives_no_button() {
    assert_eq!(buttons_for(ALL_HIGH), 0);
}

#[test]
fn push_buttons_are_the_first_sixteen() {
    assert_eq!(buttons_for(ALL_HIGH & !(1 << 47)), 1 << 0);
    assert_eq!(buttons_for(ALL_HIGH & !(1 << 44)), 1 << 2);
    assert_eq!(buttons_for(ALL_HIGH & !(1 << 39)), 1 << 15);
}

#[test]
fn double_throws_follow_up_then_down() {
    assert_eq!(buttons_for(ALL_HIGH & !(1 << 3)), 1 << 16);
    assert_eq!(buttons_for(ALL_HIGH & !(1 << 2)), 1 << 17);
    assert_eq!(buttons_for(ALL_HIGH & !(1 << 24)), 1 << 42);
    assert_eq!(buttons_for(ALL_HIGH & !(1 << 23)), 1 << 43);
}

#[test]
fn encoder_presses_are_every_third_from_there() {
    assert_eq!(buttons_for(ALL_HIGH & !(1 << 18)), 1 << 44);
    assert_eq!(buttons_for(ALL_HIGH & !(1 << 59)), 1 << 59);
}

#[test]
fn each_line_moves_at_most_one_button() {
    for line in 0..64 {
        let buttons = buttons_for(ALL_HIGH & !(1u64 << line));
        assert!(buttons.count_ones() <= 1);
    }
}

#[test]
fn everything_closed() {
    // 44 switches and six presses; the pulse buttons and the last two stay up.
    let mut expected = (1u64 << 44) - 1;
    for encoder in 0..6 {
        expected |= 1 << (44 + 3 * encoder);
    }
    assert_eq!(buttons_for(0), expected);
}

#[test]
fn one_pulse_goes_into_each_report() {
    let mapping = DeviceMapping::version1();
    let mut pulses = no_pulses();
    pulses[0].push(EncoderDirection::Decrement);
    pulses[5].push(EncoderDirection::Increment);
    pulses[5].push(EncoderDirection::Increment);
    let (buttons, taken) = read_buttons(&mapping, ALL_HIGH, &mut pulses);
    assert_eq!(buttons, 1 << 45 | 1 << 61);
    let (down, up) = (Some(EncoderDirection::Decrement), Some(EncoderDirection::Increment));
    assert_eq!(taken, [down, None, None, None, None, up]);
    let (buttons, taken) = read_buttons(&mapping, ALL_HIGH, &mut pulses);
    assert_eq!(buttons, 1 << 61);
    assert_eq!(taken, [None, None, None, None, None, up]);
    assert_eq!(read_buttons(&mapping, ALL_HIGH, &mut pulses), (0, [None; 6]));
}

#[test]
fn reported_pulses_are_counted() {
    let mapping = DeviceMapping::version1();
    let mut pulses = no_pulses();
    pulses[0].push(EncoderDirection::Decrement);
    pulses[5].push(EncoderDirection::Increment);
    pulses[5].push(EncoderDirection::Increment);
    let mut counts = [0; 6];
    let counted = |direction, count| Some(CountedPulse { direction, count });
    let taken = joystick_update(&mapping, ALL_HIGH, &[0; 8], &mut pulses, &mut counts).1;
    assert_eq!(taken[0], counted(EncoderDirection::Decrement, -1));
    assert_eq!(taken[1], None);
    assert_eq!(taken[5], counted(EncoderDirection::Increment, 1));
    assert_eq!(counts, [-1, 0, 0, 0, 0, 1]);
    let taken = joystick_update(&mapping, ALL_HIGH, &[0; 8], &mut pulses, &mut counts).1;
    assert_eq!(taken[0], None);
    assert_eq!(taken[5], counted(EncoderDirection::Increment, 2));
    assert_eq!(counts, [-1, 0, 0, 0, 0, 2]);
}

#[test]
fn full_counts_only_stop_their_own_pulses() {
    let mut pulses = no_pulses();
    assert!(can_count(&pulses, &[i32::MAX; 6]));
    pulses[3].push(EncoderDirection::Increment);
    assert!(!can_count(&pulses, &[i32::MAX; 6]));
    assert!(can_count(&pulses, &[i32::MIN; 6]));
    pulses[4].push(EncoderDirection::Decrement);
    assert!(!can_count(&pulses, &[i32::MIN; 6]));
    // The report itself does not depend on the counts.
    let mapping = DeviceMapping::version1();
    let (report, taken) = joystick_report(&mapping, ALL_HIGH, &[2048; 8], &mut pulses);
    assert_eq!(taken[3], Some(EncoderDirection::Increment));
    assert_eq!(report.buttons6, 1 << (55 - 48));
    assert_eq!(report.buttons7, 1 << (57 - 56));
}

#[test]
fn report_layout() {
    let mapping = DeviceMapping::version1();
    let channels = [0, 160, 320, 480, 640, 800, 960, 4095];
    let report = assemble_report(&mapping, 0x0807_0605_0403_0201, &channels);
    assert_eq!(
        report,
        JoyReport {
            axis0: -98,
            axis1: -88,
            axis2: -118,
            axis3: -68,
            axis4: -108,
            axis5: -78,
            axis6: -128,
            axis7: 127,
            buttons0: 1,
            buttons1: 2,
            buttons2: 3,
            buttons3: 4,
            buttons4: 5,
            buttons5: 6,
            buttons6: 7,
            buttons7: 8,
        }
    );
}

#[test]
fn whole_update() {
    let mapping = DeviceMapping::version1();
    let mut pulses = no_pulses();
    pulses[1].push(EncoderDirection::Increment);
    let mut counts = [10; 6];
    let lines = ALL_HIGH & !(1 << 46) & !(1 << 0);
    let (report, taken) =
        joystick_update(&mapping, lines, &[2048; 8], &mut pulses, &mut counts);
    let mut expected = JoyReport::new();
    expected.buttons0 = 0b10;
    expected.buttons3 = 0b1000_0000;
    expected.buttons6 = 0b10;
    let buttons = 1u64 << 1 | 1 << 31 | 1 << 49;
    assert_eq!(expected.buttons3 as u64, (buttons >> 24) & 0xff);
    assert_eq!(report, expected);
    assert_eq!(
        taken[1],
        Some(CountedPulse { direction: EncoderDirection::Increment, count: 11 })
    );
    assert_eq!(pulses[1].count, 0);
}

#[test]
fn contacts_of_version1_are_distinct() {
    let mapping = DeviceMapping::version1();
    let mut lines: Vec<usize> = mapping.buttons.to_vec();
    for (up, down) in mapping.dual_throws {
        lines.push(up);
        lines.push(down);
    }
    for (press, a, b) in mapping.encoders {
        lines.push(press);
        lines.push(a);
        lines.push(b);
    }
    lines.sort();
    let expected: Vec<usize> = (0..63).filter(|&line| line != 31).collect();
    assert_eq!(lines, expected);
    let mut axes = mapping.axes;
    axes.sort();
    assert_eq!(axes, [0, 1, 2, 3, 4, 5, 6, 7]);
}

#[test]
fn other_lines_leave_the_report_alone() {
    let mapping = DeviceMapping::version1();
    let channels = [100, 200, 300, 400, 500, 600, 700, 800];
    let mut pulses = no_pulses();
    pulses[2].push(EncoderDirection::Increment);
    let report_for = |lines| {
        joystick_report(&mapping, lines, &channels, &mut pulses.clone()).0
    };
    for lines in [ALL_HIGH, 0, 0x0123_4567_89ab_cdef] {
        let report = report_for(lines);
        assert_eq!(report.buttons7 & 0xc0, 0);
        for line in [31, 63, 16, 17, 48, 49, 51, 52, 54, 55, 57, 58, 60, 61] {
            assert_eq!(report_for(lines ^ (1u64 << line)), report);
        }
    }
}
