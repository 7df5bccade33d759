use flightpanel::encoder::{CountedPulse, EncoderDirection};
use flightpanel::lines::{contacts_line, pulse_line, Line, TransferError};
use flightpanel::log::PendingMessage;

fn rendered(line: Line) -> String {
    let mut message = PendingMessage::new();
    line.write(&mut message);
    (0..message.len()).map(|i| message.byte(i) as char).collect()
}

#[test]
fn texts_of_the_lines() {
    assert_eq!(
        rendered(Line::Packet { number: 12, len: 3, first: 112 }),
        "12: Got 3 bytes (112)"
    );
    assert_eq!(
        rendered(Line::Memory { allocated: 0, capacity: 4096 }),
        "0/4096 bytes are allocated"
    );
    assert_eq!(
        rendered(Line::LongestExecution { name: "adc", ticks: 1500 }),
        " - Longest exec time: Task adc for 1500 ticks"
    );
    assert_eq!(
        rendered(Line::TaskTime { name: "usb", run_ticks: 90, longest: 7 }),
        " - Task usb took 90 ticks (longest 7 ticks)"
    );
    assert_eq!(rendered(Line::ResetTime { ticks: 5 }), "Reset time = 5 ticks");
    assert_eq!(
        rendered(Line::BusRound { duration: 800, value: 0xffff_ffbf_ffff_ffff }),
        "I2C loop duration: 800 ticks value: ffffffbfffffffff"
    );
    assert_eq!(
        rendered(Line::Channel { index: 2, raw: 100, mapped: -122 }),
        "Channel 2: raw=100 mapped=-122"
    );
    assert_eq!(rendered(Line::SwitchLines { value: 0x0a0b }), "0xa0b");
    assert_eq!(rendered(Line::LowestLowLine { line: 38 }), "- Lowest 0 bit is 38");
    assert_eq!(rendered(Line::Contacts { encoder: 5, a: true, b: false }), "5: true false");
    assert_eq!(
        rendered(Line::Pulse { encoder: 0, direction: EncoderDirection::Increment, count: 1 }),
        "0: Increment -> 1"
    );
}

#[test]
fn numbers_match_the_standard_formatting() {
    for count in [0, 9, 10, -1, -10, 255, i32::MAX, i32::MIN] {
        let line = Line::Pulse { encoder: 3, direction: EncoderDirection::Decrement, count };
        assert_eq!(
            rendered(line),
            format!("3: {:?} -> {}", EncoderDirection::Decrement, count)
        );
    }
    for value in [0, 9, 10, 15, 16, 0xdead_beef, u64::MAX] {
        assert_eq!(rendered(Line::SwitchLines { value }), format!("0x{:x}", value));
        assert_eq!(
            rendered(Line::ResetTime { ticks: value }),
            format!("Reset time = {} ticks", value)
        );
    }
}

#[test]
fn lines_about_encoders() {
    assert_eq!(contacts_line(1, None), None);
    assert_eq!(
        contacts_line(1, Some((false, true))),
        Some(Line::Contacts { encoder: 1, a: false, b: true })
    );
    assert_eq!(pulse_line(2, None), None);
    let pulse = CountedPulse { direction: EncoderDirection::Increment, count: 9 };
    assert_eq!(
        pulse_line(2, Some(pulse)),
        Some(Line::Pulse { encoder: 2, direction: EncoderDirection::Increment, count: 9 })
    );
}

#[test]
fn long_lines_are_cut_off() {
    let name = "xxxxxxxxxxxxxxxxxxxxxxxxxxxxxxxxxxxxxxxxxxxxxxxxxxxxxxxxxxxxxxxxxxxxxxxxxxxxxxxx\
                xxxxxxxxxxxxxxxxxxxxxxxxxxxxxxxxxxxxxxxxxxxxxxxxxxxxxxxxxxxxxxxxxxxxxxxxxxxxxxxx\
                xxxxxxxxxxxxxxxxxxxxxxxxxxxxxxxxxxxxxxxxxxxxxxxxxxxxxxxxxxxxxxxxxxxxxxxxxxxxxxxx\
                xxxxxxxxxxxxxxxxxxxxxxxxxxxxxxxxxxxxxxxxxxxxxxxxxxxxxxxxxxxxxxxxxxxxxxxxxxxxxxxx";
    let text = rendered(Line::LongestExecution { name, ticks: 1 });
    assert_eq!(text.len(), 256);
    assert!(text.ends_with('x'));
}

#[test]
fn lines_about_transfer_errors() {
    assert_eq!(
        rendered(Line::ReadError { error: TransferError::BufferOverflow }),
        "Error reading endpoint: BufferOverflow"
    );
    assert_eq!(
        rendered(Line::ReadError { error: TransferError::Disabled }),
        format!("Error reading endpoint: {:?}", TransferError::Disabled)
    );
    assert_eq!(
        rendered(Line::ReportError { error: TransferError::Disabled }),
        "Joystick update error: Disabled"
    );
}
