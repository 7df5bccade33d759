//! The joystick report: which switch, encoder and axis shows up where in it.
use vstd::prelude::*;

use crate::analog;
use crate::analog::map_analog_channel;
use crate::bits;
use crate::bits::{byte_of, line_low, with_bit};
use crate::encoder;
use crate::encoder::{
    can_step, count_step, CountedPulse, EncoderDirection, EncoderState, PulseState,
};
use crate::expander;
use crate::expander::{EncoderWatch, Panel};
use crate::mapping::DeviceMapping;

verus! {

/// The report that the host reads: eight axes, then 64 buttons, eight to a byte.
#[derive(Clone, Copy, Debug, PartialEq, Eq, Structural)]
pub struct JoyReport {
    pub axis0: i8,
    pub axis1: i8,
    pub axis2: i8,
    pub axis3: i8,
    pub axis4: i8,
    pub axis5: i8,
    pub axis6: i8,
    pub axis7: i8,
    pub buttons0: u8,
    pub buttons1: u8,
    pub buttons2: u8,
    pub buttons3: u8,
    pub buttons4: u8,
    pub buttons5: u8,
    pub buttons6: u8,
    pub buttons7: u8,
}

impl JoyReport {
    /// The axes in order.
    pub open spec fn axes(self) -> Seq<i8> {
        seq![
            self.axis0,
            self.axis1,
            self.axis2,
            self.axis3,
            self.axis4,
            self.axis5,
            self.axis6,
            self.axis7,
        ]
    }

    /// The button bytes in order.
    pub open spec fn buttons(self) -> Seq<u8> {
        seq![
            self.buttons0,
            self.buttons1,
            self.buttons2,
            self.buttons3,
            self.buttons4,
            self.buttons5,
            self.buttons6,
            self.buttons7,
        ]
    }

    /// Whether button `n` is down: bit `n % 8` of button byte `n / 8`.
    pub open spec fn button(self, n: int) -> bool {
        (self.buttons()[n / 8] >> ((n % 8) as u8)) & 1 == 1
    }

    /// Whether the report shows these switches, pulses and analog channels.
    pub open spec fn shows(
        self,
        mapping: DeviceMapping,
        switches: u64,
        pulses: Seq<PulseState>,
        channels: Seq<u16>,
    ) -> bool {
        &&& forall|n: int|
            0 <= n < 64 ==> #[trigger] self.button(n) == button_down(mapping, switches, pulses, n)
        &&& forall|i: int|
            0 <= i < 8 ==> #[trigger] self.axes()[i] == analog::axis_position(
                channels[mapping.axes[i] as int],
            )
    }

    pub fn new() -> (report: JoyReport)
        ensures
            forall|i: int| 0 <= i < 8 ==> #[trigger] report.axes()[i] == 0,
            forall|i: int| 0 <= i < 8 ==> #[trigger] report.buttons()[i] == 0,
            report == (JoyReport {
                axis0: 0,
                axis1: 0,
                axis2: 0,
                axis3: 0,
                axis4: 0,
                axis5: 0,
                axis6: 0,
                axis7: 0,
                buttons0: 0,
                buttons1: 0,
                buttons2: 0,
                buttons3: 0,
                buttons4: 0,
                buttons5: 0,
                buttons6: 0,
                buttons7: 0,
            }),
    {
        JoyReport {
            axis0: 0,
            axis1: 0,
            axis2: 0,
            axis3: 0,
            axis4: 0,
            axis5: 0,
            axis6: 0,
            axis7: 0,
            buttons0: 0,
            buttons1: 0,
            buttons2: 0,
            buttons3: 0,
            buttons4: 0,
            buttons5: 0,
            buttons6: 0,
            buttons7: 0,
        }
    }
}

/// Whether button `n` is down, given the switch word and the pulses that wait.
///
/// Buttons 0 to 15 are the push buttons. The double-throw switches follow, two buttons each: up,
/// then down. The encoders come last, three buttons each: the press, a decrement pulse, an
/// increment pulse. What is left over stays up.
pub open spec fn button_down(
    mapping: DeviceMapping,
    switches: u64,
    pulses: Seq<PulseState>,
    n: int,
) -> bool {
    if n < 44 {
        0 <= n && !bits::bit(switches, mapping.contact(n))
    } else if n < 62 {
        let pulse = pulses[(n - 44) / 3].front();
        if (n - 44) % 3 == 0 {
            !bits::bit(switches, mapping.contact(n))
        } else if (n - 44) % 3 == 1 {
            pulse == Some(EncoderDirection::Decrement)
        } else {
            pulse == Some(EncoderDirection::Increment)
        }
    } else {
        false
    }
}

/// Reads the push buttons and the double-throw switches off the switch word.
fn read_switches(mapping: &DeviceMapping, switches: u64) -> (buttons: u64)
    requires
        mapping.valid(),
    ensures
        forall|n: int| #[trigger]
            bits::bit(buttons, n) == (0 <= n < 44 && !bits::bit(switches, mapping.contact(n))),
{
    let mut buttons: u64 = 0;
    proof {
        bits::lemma_zero_has_no_bits();
    }
    let mut from: usize = 0;
    while from < 16
        invariant
            from <= 16,
            mapping.valid(),
            forall|n: int| #[trigger]
                bits::bit(buttons, n) == (0 <= n < from && !bits::bit(
                    switches,
                    mapping.contact(n),
                )),
        decreases 16 - from,
    {
        if line_low(switches, mapping.buttons[from]) {
            buttons = with_bit(buttons, from);
        }
        from = from + 1;
    }
    let mut to: usize = 0;
    while to < 14
        invariant
            to <= 14,
            mapping.valid(),
            forall|n: int| #[trigger]
                bits::bit(buttons, n) == (0 <= n < 16 + 2 * to && !bits::bit(
                    switches,
                    mapping.contact(n),
                )),
        decreases 14 - to,
    {
        let (up, down): (usize, usize) = mapping.dual_throws[to];
        assert(mapping.contact(2 * to + 16) == up);
        assert(mapping.contact(2 * to + 17) == down);
        if line_low(switches, up) {
            buttons = with_bit(buttons, to * 2 + 16);
        }
        if line_low(switches, down) {
            buttons = with_bit(buttons, to * 2 + 17);
        }
        to = to + 1;
    }
    buttons
}

/// Builds the button word of one report, and takes at most one pulse of each encoder for it.
///
/// The second result holds the pulses that were taken.
pub fn read_buttons(
    mapping: &DeviceMapping,
    switches: u64,
    pulses: &mut [PulseState; 6],
) -> (read: (u64, [Option<EncoderDirection>; 6]))
    requires
        mapping.valid(),
    ensures
        forall|n: int| #[trigger]
            bits::bit(read.0, n) == button_down(*mapping, switches, old(pulses)@, n),
        forall|i: int| 0 <= i < 6 ==> #[trigger] final(pulses)[i] == old(pulses)[i].popped(),
        forall|i: int| 0 <= i < 6 ==> #[trigger] read.1[i] == old(pulses)[i].front(),
        forall|i: int|
            0 <= i < 6 ==> (#[trigger] read.1[i]) == if old(pulses)[i].count > 0 {
                Some(old(pulses)[i].direction)
            } else {
                None
            },
        forall|i: int|
            0 <= i < 6 ==> (#[trigger] final(pulses)[i]).direction == old(pulses)[i].direction
                && final(pulses)[i].count == if old(pulses)[i].count > 0 {
                old(pulses)[i].count - 1
            } else {
                0
            },
        forall|i: int|
            0 <= i < 16 ==> (bits::bit(read.0, i) <==> switches & (1u64 << (
            #[trigger] mapping.buttons[i] as u64)) == 0),
        forall|i: int|
            0 <= i < 14 ==> {
                &&& bits::bit(read.0, 16 + 2 * i) <==> switches & (1u64 << ((
                #[trigger] mapping.dual_throws[i]).0 as u64)) == 0
                &&& bits::bit(read.0, 17 + 2 * i) <==> switches & (1u64 << (
                mapping.dual_throws[i].1 as u64)) == 0
            },
        forall|i: int|
            0 <= i < 6 ==> {
                &&& bits::bit(read.0, 44 + 3 * i) <==> switches & (1u64 << ((
                #[trigger] mapping.encoders[i]).0 as u64)) == 0
                &&& bits::bit(read.0, 45 + 3 * i) <==> old(pulses)[i].count > 0
                    && old(pulses)[i].direction == EncoderDirection::Decrement
                &&& bits::bit(read.0, 46 + 3 * i) <==> old(pulses)[i].count > 0
                    && old(pulses)[i].direction == EncoderDirection::Increment
            },
        !bits::bit(read.0, 62) && !bits::bit(read.0, 63),
{
    let mut buttons: u64 = read_switches(mapping, switches);
    let mut taken: [Option<EncoderDirection>; 6] = [None;6];
    let mut to: usize = 0;
    while to < 6
        invariant
            to <= 6,
            mapping.valid(),
            forall|n: int| #[trigger]
                bits::bit(buttons, n) == (n < 44 + 3 * to && button_down(
                    *mapping,
                    switches,
                    old(pulses)@,
                    n,
                )),
            forall|i: int| 0 <= i < to ==> #[trigger] pulses[i] == old(pulses)[i].popped(),
            forall|i: int| to <= i < 6 ==> #[trigger] pulses[i] == old(pulses)[i],
            forall|i: int| 0 <= i < to ==> #[trigger] taken[i] == old(pulses)[i].front(),
        decreases 6 - to,
    {
        let base: usize = to * 3 + 16 + 2 * 14;
        let press: usize = mapping.encoders[to].0;
        assert(mapping.contact(base as int) == press);
        if line_low(switches, press) {
            buttons = with_bit(buttons, base);
        }
        let pulse: Option<EncoderDirection> = pulses[to].pop();
        match pulse {
            Some(EncoderDirection::Decrement) => {
                buttons = with_bit(buttons, base + 1);
            },
            Some(EncoderDirection::Increment) => {
                buttons = with_bit(buttons, base + 2);
            },
            None => {},
        }
        taken[to] = pulse;
        to = to + 1;
    }
    proof {
        assert forall|i: int| 0 <= i < 16 implies (bits::bit(buttons, i) <==> switches & (1u64 << (
        #[trigger] mapping.buttons[i] as u64)) == 0) by {
            law_buttons_show_the_controls(*mapping, switches, old(pulses)@, i);
        }
        assert forall|i: int| 0 <= i < 14 implies {
            &&& bits::bit(buttons, 16 + 2 * i) <==> switches & (1u64 << ((
            #[trigger] mapping.dual_throws[i]).0 as u64)) == 0
            &&& bits::bit(buttons, 17 + 2 * i) <==> switches & (1u64 << (
            mapping.dual_throws[i].1 as u64)) == 0
        } by {
            law_buttons_show_the_controls(*mapping, switches, old(pulses)@, i);
        }
        assert forall|i: int| 0 <= i < 6 implies {
            &&& bits::bit(buttons, 44 + 3 * i) <==> switches & (1u64 << ((
            #[trigger] mapping.encoders[i]).0 as u64)) == 0
            &&& bits::bit(buttons, 45 + 3 * i) <==> old(pulses)[i].count > 0
                && old(pulses)[i].direction == EncoderDirection::Decrement
            &&& bits::bit(buttons, 46 + 3 * i) <==> old(pulses)[i].count > 0
                && old(pulses)[i].direction == EncoderDirection::Increment
        } by {
            law_buttons_show_the_controls(*mapping, switches, old(pulses)@, i);
        }
    }
    (buttons, taken)
}

/// Whether the counts of the encoders can take the pulses that wait first.
pub open spec fn counts_have_room(pulses: Seq<PulseState>, count: Seq<i32>) -> bool {
    forall|i: int|
        0 <= i < 6 ==> CountedPulse::has_room(#[trigger] pulses[i].front(), count[i])
}

/// Tests whether the counts of the encoders can take the pulses that wait first.
pub fn can_count(pulses: &[PulseState; 6], encoder_count: &[i32; 6]) -> (can: bool)
    ensures
        can == counts_have_room(pulses@, encoder_count@),
{
    let mut i: usize = 0;
    while i < 6
        invariant
            i <= 6,
            forall|j: int|
                0 <= j < i ==> CountedPulse::has_room(
                    #[trigger] pulses[j].front(),
                    encoder_count[j],
                ),
        decreases 6 - i,
    {
        let mut pulse: PulseState = pulses[i];
        if let Some(direction) = pulse.pop() {
            if !can_step(encoder_count[i], direction) {
                assert(!CountedPulse::has_room(
                    pulses@[i as int].front(),
                    encoder_count@[i as int],
                ));
                return false;
            }
        }
        i = i + 1;
    }
    true
}

/// Counts the pulses that were taken for a report.
fn count_taken(
    taken: &[Option<EncoderDirection>; 6],
    encoder_count: &mut [i32; 6],
) -> (counted: [Option<CountedPulse>; 6])
    requires
        forall|i: int|
            0 <= i < 6 ==> CountedPulse::has_room(#[trigger] taken[i], old(encoder_count)[i]),
    ensures
        forall|i: int|
            0 <= i < 6 ==> #[trigger] final(encoder_count)[i] == CountedPulse::count_after(
                taken[i],
                old(encoder_count)[i],
            ),
        forall|i: int|
            0 <= i < 6 ==> #[trigger] counted[i] == CountedPulse::of(
                taken[i],
                old(encoder_count)[i],
            ),
{
    let mut counted: [Option<CountedPulse>; 6] = [None;6];
    let mut i: usize = 0;
    while i < 6
        invariant
            i <= 6,
            forall|j: int|
                0 <= j < 6 ==> CountedPulse::has_room(#[trigger] taken[j], old(encoder_count)[j]),
            forall|j: int|
                0 <= j < i ==> #[trigger] encoder_count[j] == CountedPulse::count_after(
                    taken[j],
                    old(encoder_count)[j],
                ),
            forall|j: int| i <= j < 6 ==> #[trigger] encoder_count[j] == old(encoder_count)[j],
            forall|j: int|
                0 <= j < i ==> #[trigger] counted[j] == CountedPulse::of(
                    taken[j],
                    old(encoder_count)[j],
                ),
            forall|j: int| i <= j < 6 ==> #[trigger] counted[j] is None,
        decreases 6 - i,
    {
        if let Some(direction) = taken[i] {
            let count: i32 = count_step(encoder_count[i], direction);
            encoder_count[i] = count;
            counted[i] = Some(CountedPulse { direction, count });
        }
        i = i + 1;
    }
    counted
}

/// Lays the button word and the axes out in a report.
pub fn assemble_report(
    mapping: &DeviceMapping,
    buttons: u64,
    channels: &[u16; 8],
) -> (report: JoyReport)
    requires
        mapping.valid(),
    ensures
        forall|n: int| 0 <= n < 64 ==> #[trigger] report.button(n) == bits::bit(buttons, n),
        forall|i: int|
            0 <= i < 8 ==> #[trigger] report.axes()[i] == analog::axis_position(
                channels[mapping.axes[i] as int],
            ),
        report.axis0 == analog::axis_position(channels[mapping.axes[0] as int]),
        report.axis1 == analog::axis_position(channels[mapping.axes[1] as int]),
        report.axis2 == analog::axis_position(channels[mapping.axes[2] as int]),
        report.axis3 == analog::axis_position(channels[mapping.axes[3] as int]),
        report.axis4 == analog::axis_position(channels[mapping.axes[4] as int]),
        report.axis5 == analog::axis_position(channels[mapping.axes[5] as int]),
        report.axis6 == analog::axis_position(channels[mapping.axes[6] as int]),
        report.axis7 == analog::axis_position(channels[mapping.axes[7] as int]),
        report.buttons0 == (buttons >> 0u64) & 0xff,
        report.buttons1 == (buttons >> 8u64) & 0xff,
        report.buttons2 == (buttons >> 16u64) & 0xff,
        report.buttons3 == (buttons >> 24u64) & 0xff,
        report.buttons4 == (buttons >> 32u64) & 0xff,
        report.buttons5 == (buttons >> 40u64) & 0xff,
        report.buttons6 == (buttons >> 48u64) & 0xff,
        report.buttons7 == (buttons >> 56u64) & 0xff,
{
    let report = JoyReport {
        axis0: map_analog_channel(channels[mapping.axes[0]]),
        axis1: map_analog_channel(channels[mapping.axes[1]]),
        axis2: map_analog_channel(channels[mapping.axes[2]]),
        axis3: map_analog_channel(channels[mapping.axes[3]]),
        axis4: map_analog_channel(channels[mapping.axes[4]]),
        axis5: map_analog_channel(channels[mapping.axes[5]]),
        axis6: map_analog_channel(channels[mapping.axes[6]]),
        axis7: map_analog_channel(channels[mapping.axes[7]]),
        buttons0: byte_of(buttons, 0),
        buttons1: byte_of(buttons, 1),
        buttons2: byte_of(buttons, 2),
        buttons3: byte_of(buttons, 3),
        buttons4: byte_of(buttons, 4),
        buttons5: byte_of(buttons, 5),
        buttons6: byte_of(buttons, 6),
        buttons7: byte_of(buttons, 7),
    };
    proof {
        assert forall|n: int| 0 <= n < 64 implies #[trigger] report.button(n)
            == bits::bit(buttons, n) by {
            let byte = report.buttons()[n / 8];
            let i = n % 8;
            assert(((byte >> (i as u8)) & 1 == 1) == bits::bit(buttons, 8 * (n / 8) + i));
        }
    }
    report
}

/// Builds one report from the switch word, the analog channels and the pulses that wait, and takes
/// at most one pulse of each encoder for it. Nothing else goes into the report.
///
/// The second result holds the pulses that were taken.
pub fn joystick_report(
    mapping: &DeviceMapping,
    switches: u64,
    channels: &[u16; 8],
    pulses: &mut [PulseState; 6],
) -> (built: (JoyReport, [Option<EncoderDirection>; 6]))
    requires
        mapping.valid(),
    ensures
        built.0.shows(*mapping, switches, old(pulses)@, channels@),
        forall|i: int| 0 <= i < 6 ==> #[trigger] final(pulses)[i] == old(pulses)[i].popped(),
        forall|i: int| 0 <= i < 6 ==> #[trigger] built.1[i] == old(pulses)[i].front(),
        forall|i: int|
            0 <= i < 6 ==> (#[trigger] built.1[i]) == if old(pulses)[i].count > 0 {
                Some(old(pulses)[i].direction)
            } else {
                None
            },
        forall|i: int|
            0 <= i < 6 ==> (#[trigger] final(pulses)[i]).direction == old(pulses)[i].direction
                && final(pulses)[i].count == if old(pulses)[i].count > 0 {
                old(pulses)[i].count - 1
            } else {
                0
            },
{
    let (buttons, taken): (u64, [Option<EncoderDirection>; 6]) = read_buttons(
        mapping,
        switches,
        pulses,
    );
    (assemble_report(mapping, buttons, channels), taken)
}

/// Builds one report, as `joystick_report` does, and counts the pulses that were taken for it.
///
/// The second result holds the pulses that were taken.
pub fn joystick_update(
    mapping: &DeviceMapping,
    switches: u64,
    channels: &[u16; 8],
    pulses: &mut [PulseState; 6],
    encoder_count: &mut [i32; 6],
) -> (update: (JoyReport, [Option<CountedPulse>; 6]))
    requires
        mapping.valid(),
        counts_have_room(old(pulses)@, old(encoder_count)@),
    ensures
        update.0.shows(*mapping, switches, old(pulses)@, channels@),
        forall|i: int| 0 <= i < 6 ==> #[trigger] final(pulses)[i] == old(pulses)[i].popped(),
        forall|i: int|
            0 <= i < 6 ==> #[trigger] final(encoder_count)[i] == CountedPulse::count_after(
                old(pulses)[i].front(),
                old(encoder_count)[i],
            ),
        forall|i: int|
            0 <= i < 6 ==> #[trigger] update.1[i] == CountedPulse::of(
                old(pulses)[i].front(),
                old(encoder_count)[i],
            ),
        forall|i: int|
            0 <= i < 6 ==> (#[trigger] update.1[i]) == if old(pulses)[i].count > 0 {
                Some(
                    CountedPulse {
                        direction: old(pulses)[i].direction,
                        count: final(encoder_count)[i],
                    },
                )
            } else {
                None
            },
        forall|i: int|
            0 <= i < 6 ==> #[trigger] final(encoder_count)[i] == old(encoder_count)[i] + if old(
                pulses,
            )[i].count == 0 {
                0int
            } else if old(pulses)[i].direction == EncoderDirection::Increment {
                1
            } else {
                -1
            },
{
    let (report, taken): (JoyReport, [Option<EncoderDirection>; 6]) = joystick_report(
        mapping,
        switches,
        channels,
        pulses,
    );
    (report, count_taken(&taken, encoder_count))
}

/// Every button shows its own control, and nothing else. A push button, each side of a double-throw
/// switch and the press of an encoder are down while their line is low. Of the two pulse buttons of
/// an encoder the first is down while a decrement waits to be reported, the second while an
/// increment does.
pub proof fn law_buttons_show_the_controls(
    mapping: DeviceMapping,
    switches: u64,
    pulses: Seq<PulseState>,
    i: int,
)
    requires
        mapping.valid(),
    ensures
        0 <= i < 16 ==> (button_down(mapping, switches, pulses, i) <==> switches & (1u64
            << (mapping.buttons[i] as u64)) == 0),
        0 <= i < 14 ==> (button_down(mapping, switches, pulses, 16 + 2 * i) <==> switches & (1u64
            << (mapping.dual_throws[i].0 as u64)) == 0),
        0 <= i < 14 ==> (button_down(mapping, switches, pulses, 17 + 2 * i) <==> switches & (1u64
            << (mapping.dual_throws[i].1 as u64)) == 0),
        0 <= i < 6 ==> (button_down(mapping, switches, pulses, 44 + 3 * i) <==> switches & (1u64
            << (mapping.encoders[i].0 as u64)) == 0),
        0 <= i < 6 ==> (button_down(mapping, switches, pulses, 45 + 3 * i) <==> pulses[i].count > 0
            && pulses[i].direction == EncoderDirection::Decrement),
        0 <= i < 6 ==> (button_down(mapping, switches, pulses, 46 + 3 * i) <==> pulses[i].count > 0
            && pulses[i].direction == EncoderDirection::Increment),
        !button_down(mapping, switches, pulses, 62),
        !button_down(mapping, switches, pulses, 63),
{
    crate::mapping::law_contacts_follow_the_controls(mapping, i);
    if 0 <= i < 16 {
        assert(mapping.buttons[i] < 64);
        bits::law_bit_is_masked(switches, mapping.buttons[i] as u64);
    }
    if 0 <= i < 14 {
        assert(mapping.dual_throws[i].0 < 64 && mapping.dual_throws[i].1 < 64);
        bits::law_bit_is_masked(switches, mapping.dual_throws[i].0 as u64);
        bits::law_bit_is_masked(switches, mapping.dual_throws[i].1 as u64);
    }
    if 0 <= i < 6 {
        assert(mapping.encoders[i].0 < 64);
        bits::law_bit_is_masked(switches, mapping.encoders[i].0 as u64);
    }
}

/// The direction of a turn shows in the report: for every encoder the increment button is down
/// exactly if more increments than decrements wait, and the decrement button exactly if fewer do.
pub proof fn law_pulse_buttons_show_the_direction(
    mapping: DeviceMapping,
    switches: u64,
    pulses: Seq<PulseState>,
    i: int,
)
    requires
        0 <= i < 6,
    ensures
        button_down(mapping, switches, pulses, 46 + 3 * i) <==> pulses[i].net() > 0,
        button_down(mapping, switches, pulses, 45 + 3 * i) <==> pulses[i].net() < 0,
{
}

/// Where the buttons and axes of a report stand: button `8 * b + k` is bit `k` of button byte `b`,
/// and the axes follow their names.
pub proof fn law_report_layout(report: JoyReport, k: u8)
    requires
        k < 8,
    ensures
        report.button(k as int) <==> (report.buttons0 >> k) & 1 == 1,
        report.button(8 + k) <==> (report.buttons1 >> k) & 1 == 1,
        report.button(16 + k) <==> (report.buttons2 >> k) & 1 == 1,
        report.button(24 + k) <==> (report.buttons3 >> k) & 1 == 1,
        report.button(32 + k) <==> (report.buttons4 >> k) & 1 == 1,
        report.button(40 + k) <==> (report.buttons5 >> k) & 1 == 1,
        report.button(48 + k) <==> (report.buttons6 >> k) & 1 == 1,
        report.button(56 + k) <==> (report.buttons7 >> k) & 1 == 1,
        report.axes()[0] == report.axis0,
        report.axes()[1] == report.axis1,
        report.axes()[2] == report.axis2,
        report.axes()[3] == report.axis3,
        report.axes()[4] == report.axis4,
        report.axes()[5] == report.axis5,
        report.axes()[6] == report.axis6,
        report.axes()[7] == report.axis7,
{
}

/// A report shows a pulse that waits: if an increment of encoder `i` waits first, bit `46 + 3 * i`
/// of the button bytes is set and bit `45 + 3 * i` is not, and the other way round for a decrement.
/// Every axis shows its own channel, sixteen counts to a step.
pub proof fn law_report_shows_what_it_is_made_from(
    report: JoyReport,
    mapping: DeviceMapping,
    switches: u64,
    pulses: Seq<PulseState>,
    channels: Seq<u16>,
    i: int,
)
    requires
        mapping.valid(),
        report.shows(mapping, switches, pulses, channels),
    ensures
        0 <= i < 16 ==> (report.button(i) <==> switches & (1u64 << (mapping.buttons[i] as u64))
            == 0),
        0 <= i < 14 ==> (report.button(16 + 2 * i) <==> switches & (1u64
            << (mapping.dual_throws[i].0 as u64)) == 0),
        0 <= i < 14 ==> (report.button(17 + 2 * i) <==> switches & (1u64
            << (mapping.dual_throws[i].1 as u64)) == 0),
        0 <= i < 6 ==> (report.button(44 + 3 * i) <==> switches & (1u64
            << (mapping.encoders[i].0 as u64)) == 0),
        0 <= i < 6 ==> (report.button(45 + 3 * i) <==> pulses[i].count > 0 && pulses[i].direction
            == EncoderDirection::Decrement),
        0 <= i < 6 ==> (report.button(46 + 3 * i) <==> pulses[i].count > 0 && pulses[i].direction
            == EncoderDirection::Increment),
        0 <= i < 8 ==> (report.axes()[i] - (channels[mapping.axes[i] as int] / 16 - 128)) % 256
            == 0,
{
    law_buttons_show_the_controls(mapping, switches, pulses, i);
    if 0 <= i < 8 {
        assert(report.axes()[i] == analog::axis_position(channels[mapping.axes[i] as int]));
    }
}

/// The two pulse buttons of an encoder are never down together, and they are both up exactly when
/// no pulse of it waits.
pub proof fn law_pulse_buttons_exclude_each_other(
    mapping: DeviceMapping,
    switches: u64,
    pulses: Seq<PulseState>,
    i: int,
)
    requires
        0 <= i < 6,
    ensures
        !(button_down(mapping, switches, pulses, 45 + 3 * i) && button_down(
            mapping,
            switches,
            pulses,
            46 + 3 * i,
        )),
        pulses[i].net() == 0 <==> !button_down(mapping, switches, pulses, 45 + 3 * i)
            && !button_down(mapping, switches, pulses, 46 + 3 * i),
{
}

/// No pulse is lost or made up between the bus and the report: the pulses counted on the bus, less
/// those counted in reports, are always those that wait. A reading of the encoder keeps this, and
/// so does a report.
pub proof fn law_waiting_pulses_balance_counts(
    waiting: PulseState,
    read_count: i32,
    report_count: i32,
    pulse: Option<EncoderDirection>,
)
    requires
        read_count - report_count == waiting.net(),
        waiting.count < usize::MAX,
    ensures
        CountedPulse::count_after(pulse, read_count) - report_count == expander::waiting_after(
            waiting,
            pulse,
        ).net(),
        read_count - CountedPulse::count_after(waiting.front(), report_count)
            == waiting.popped().net(),
{
}

/// A whole detent of an encoder shows in one report: when no pulse waits before it, the next report
/// takes a pulse in the direction of the turn, and nothing waits after that.
pub proof fn law_detent_shows_in_one_report(waiting: PulseState, direction: EncoderDirection)
    requires
        waiting.net() == 0,
    ensures
        ({
            let pulses = EncoderState::Idle.emitted_by_all(encoder::detent(direction));
            let queued = waiting.pushed_all(pulses);
            queued.front() == Some(direction) && queued.popped().front() is None
        }),
{
    encoder::law_detent_emits_one_pulse(direction);
    reveal_with_fuel(PulseState::pushed_all, 2);
}

/// On the first board a switch line moves one button of the report and no other: two switch words
/// that differ in the line of one contact alone give reports that agree on every other contact's
/// button.
pub proof fn law_version1_line_moves_one_button(
    mapping: DeviceMapping,
    before: u64,
    after: u64,
    pulses: Seq<PulseState>,
    moved: int,
    n: int,
)
    requires
        mapping.is_version1(),
        0 <= moved < 62,
        0 <= n < 62,
        n != moved,
        forall|line: int|
            line != mapping.contact(moved) ==> #[trigger] bits::bit(before, line)
                == bits::bit(after, line),
    ensures
        button_down(mapping, before, pulses, n) == button_down(mapping, after, pulses, n),
{
    if n < moved {
        crate::mapping::law_version1_contacts_have_their_own_lines(mapping, n, moved);
    } else {
        crate::mapping::law_version1_contacts_have_their_own_lines(mapping, moved, n);
    }
}

proof fn lemma_bits_determine_byte(left: u8, right: u8)
    requires
        forall|k: u8|
            k < 8 ==> ((#[trigger] (left >> k)) & 1 == 1) == ((right >> k) & 1 == 1),
    ensures
        left == right,
{
    assert(((left >> 0u8) & 1 == 1) == ((right >> 0u8) & 1 == 1));
    assert(((left >> 1u8) & 1 == 1) == ((right >> 1u8) & 1 == 1));
    assert(((left >> 2u8) & 1 == 1) == ((right >> 2u8) & 1 == 1));
    assert(((left >> 3u8) & 1 == 1) == ((right >> 3u8) & 1 == 1));
    assert(((left >> 4u8) & 1 == 1) == ((right >> 4u8) & 1 == 1));
    assert(((left >> 5u8) & 1 == 1) == ((right >> 5u8) & 1 == 1));
    assert(((left >> 6u8) & 1 == 1) == ((right >> 6u8) & 1 == 1));
    assert(((left >> 7u8) & 1 == 1) == ((right >> 7u8) & 1 == 1));
    assert(left == right) by (bit_vector)
        requires
            ((left >> 0u8) & 1 == 1) == ((right >> 0u8) & 1 == 1),
            ((left >> 1u8) & 1 == 1) == ((right >> 1u8) & 1 == 1),
            ((left >> 2u8) & 1 == 1) == ((right >> 2u8) & 1 == 1),
            ((left >> 3u8) & 1 == 1) == ((right >> 3u8) & 1 == 1),
            ((left >> 4u8) & 1 == 1) == ((right >> 4u8) & 1 == 1),
            ((left >> 5u8) & 1 == 1) == ((right >> 5u8) & 1 == 1),
            ((left >> 6u8) & 1 == 1) == ((right >> 6u8) & 1 == 1),
            ((left >> 7u8) & 1 == 1) == ((right >> 7u8) & 1 == 1),
    ;
}

/// A report is determined by its buttons and axes.
pub proof fn law_buttons_and_axes_determine_report(left: JoyReport, right: JoyReport)
    requires
        forall|n: int| 0 <= n < 64 ==> #[trigger] left.button(n) == right.button(n),
        forall|i: int| 0 <= i < 8 ==> #[trigger] left.axes()[i] == right.axes()[i],
    ensures
        left == right,
{
    assert forall|i: int| 0 <= i < 8 implies #[trigger] left.buttons()[i] == right.buttons()[i] by {
        let (l, r) = (left.buttons()[i], right.buttons()[i]);
        assert forall|k: u8| k < 8 implies ((#[trigger] (l >> k)) & 1 == 1) == ((r >> k) & 1
            == 1) by {
            assert(left.button(8 * i + k) == right.button(8 * i + k));
            assert((8 * i + k) / 8 == i && (8 * i + k) % 8 == k);
        }
        lemma_bits_determine_byte(l, r);
    }
    assert(left.axes()[0] == right.axes()[0]);
    assert(left.axes()[1] == right.axes()[1]);
    assert(left.axes()[2] == right.axes()[2]);
    assert(left.axes()[3] == right.axes()[3]);
    assert(left.axes()[4] == right.axes()[4]);
    assert(left.axes()[5] == right.axes()[5]);
    assert(left.axes()[6] == right.axes()[6]);
    assert(left.axes()[7] == right.axes()[7]);
    assert(left.buttons()[0] == right.buttons()[0]);
    assert(left.buttons()[1] == right.buttons()[1]);
    assert(left.buttons()[2] == right.buttons()[2]);
    assert(left.buttons()[3] == right.buttons()[3]);
    assert(left.buttons()[4] == right.buttons()[4]);
    assert(left.buttons()[5] == right.buttons()[5]);
    assert(left.buttons()[6] == right.buttons()[6]);
    assert(left.buttons()[7] == right.buttons()[7]);
}

/// Whether `line` is a line of the first board that no button of a report is read off: it carries
/// no contact, or contact A or B of an encoder.
pub open spec fn version1_moves_no_button(mapping: DeviceMapping, line: int) -> bool {
    ||| line == 31
    ||| line == 63
    ||| exists|i: int|
        0 <= i < 6 && (line == (#[trigger] mapping.encoders[i]).1 || line == mapping.encoders[i].2)
}

/// On the first board the lines without a contact and the lines of the A and B contacts leave the
/// report alone: two switch words that differ in no other line give the same report as long as the
/// pulses that wait and the analog channels are the same, whatever was reported before. In both
/// reports buttons 62 and 63 are up.
pub proof fn law_version1_other_lines_leave_report(
    mapping: DeviceMapping,
    before: u64,
    after: u64,
    pulses: Seq<PulseState>,
    channels: Seq<u16>,
    first: JoyReport,
    second: JoyReport,
)
    requires
        mapping.is_version1(),
        forall|line: int|
            !version1_moves_no_button(mapping, line) ==> #[trigger] bits::bit(before, line)
                == bits::bit(after, line),
        first.shows(mapping, before, pulses, channels),
        second.shows(mapping, after, pulses, channels),
    ensures
        first == second,
        first.buttons7 & 0xc0 == 0,
        second.buttons7 & 0xc0 == 0,
{
    assert forall|n: int| 0 <= n < 64 implies #[trigger] first.button(n) == second.button(n) by {
        if n < 44 || (n < 62 && (n - 44) % 3 == 0) {
            lemma_version1_button_line_counts(mapping, n);
            assert(bits::bit(before, mapping.contact(n)) == bits::bit(after, mapping.contact(n)));
        }
        assert(button_down(mapping, before, pulses, n) == button_down(mapping, after, pulses, n));
    }
    assert forall|i: int| 0 <= i < 8 implies #[trigger] first.axes()[i] == second.axes()[i] by {
    }
    law_buttons_and_axes_determine_report(first, second);
    law_last_two_buttons_stay_up(first, mapping, before, pulses, channels);
}

proof fn lemma_version1_button_line_counts(mapping: DeviceMapping, n: int)
    requires
        mapping.is_version1(),
        0 <= n < 44 || (44 <= n < 62 && (n - 44) % 3 == 0),
    ensures
        !version1_moves_no_button(mapping, mapping.contact(n)),
{
    crate::mapping::law_version1_contact_has_line(mapping, n);
    assert forall|i: int| 0 <= i < 6 implies mapping.contact(n) != (
    #[trigger] mapping.encoders[i]).1 && mapping.contact(n) != mapping.encoders[i].2 by {
        let a = 45 + 3 * i;
        let b = 46 + 3 * i;
        assert(mapping.contact(a) == mapping.encoders[i].1);
        assert(mapping.contact(b) == mapping.encoders[i].2);
        if n < a {
            crate::mapping::law_version1_contacts_have_their_own_lines(mapping, n, a);
            crate::mapping::law_version1_contacts_have_their_own_lines(mapping, n, b);
        } else {
            crate::mapping::law_version1_contacts_have_their_own_lines(mapping, a, n);
            crate::mapping::law_version1_contacts_have_their_own_lines(mapping, b, n);
        }
    }
}

/// Buttons 62 and 63 are up in every report.
pub proof fn law_last_two_buttons_stay_up(
    report: JoyReport,
    mapping: DeviceMapping,
    switches: u64,
    pulses: Seq<PulseState>,
    channels: Seq<u16>,
)
    requires
        report.shows(mapping, switches, pulses, channels),
    ensures
        !report.button(62),
        !report.button(63),
        report.buttons7 & 0xc0 == 0,
{
    assert(!report.button(62) && !report.button(63));
    let byte = report.buttons7;
    assert(byte & 0xc0 == 0) by (bit_vector)
        requires
            !((byte >> 6u8) & 1 == 1),
            !((byte >> 7u8) & 1 == 1),
    ;
}

/// Room is lacking only for a pulse that waits, in the count of its own encoder.
pub proof fn law_counts_lack_room_only_at_the_limits(pulses: Seq<PulseState>, count: Seq<i32>)
    ensures
        counts_have_room(pulses, count) <==> forall|i: int|
            0 <= i < 6 && (#[trigger] pulses[i]).count > 0 ==> {
                &&& pulses[i].direction == EncoderDirection::Increment ==> count[i] < i32::MAX
                &&& pulses[i].direction == EncoderDirection::Decrement ==> count[i] > i32::MIN
            },
{
    if counts_have_room(pulses, count) {
        assert forall|i: int| 0 <= i < 6 && (#[trigger] pulses[i]).count > 0 implies {
            &&& pulses[i].direction == EncoderDirection::Increment ==> count[i] < i32::MAX
            &&& pulses[i].direction == EncoderDirection::Decrement ==> count[i] > i32::MIN
        } by {
            assert(CountedPulse::has_room(pulses[i].front(), count[i]));
        }
    }
}

/// What an expander gives shows in the report: a control wired to line `k` of the expander at
/// `index` is down exactly if bit `k` of its first byte is clear, and one wired to line `8 + k`
/// exactly if bit `k` of its second byte is, whatever its other lines carry.
pub proof fn law_polled_control_shows(
    mapping: DeviceMapping,
    word: u64,
    index: int,
    result: Seq<u8>,
    k: u8,
    pulses: Seq<PulseState>,
    n: int,
)
    requires
        mapping.valid(),
        0 <= index < 4,
        k < 8,
        0 <= n < 44 || (44 <= n < 62 && (n - 44) % 3 == 0),
    ensures
        mapping.contact(n) == 16 * index + k ==> (button_down(
            mapping,
            expander::merged(word, index, result),
            pulses,
            n,
        ) <==> (result[0] >> k) & 1 == 0),
        mapping.contact(n) == 16 * index + 8 + k ==> (button_down(
            mapping,
            expander::merged(word, index, result),
            pulses,
            n,
        ) <==> (result[1] >> k) & 1 == 0),
{
    let low = result[0];
    let high = result[1];
    expander::law_merged_line_is_its_bit(word, index, result, k);
    assert((low >> k) & 1 == 0 || (low >> k) & 1 == 1) by (bit_vector);
    assert((high >> k) & 1 == 0 || (high >> k) & 1 == 1) by (bit_vector);
}

/// From the lines to the report: when an encoder at rest without pulses is turned by one detent,
/// read off its two lines four times, the next report shows it at the button of the direction of
/// the turn and at no other, and nothing waits after it.
pub proof fn law_turn_shows_at_its_button(
    mapping: DeviceMapping,
    panels: Seq<Panel>,
    watches: Seq<EncoderWatch>,
    words: Seq<u64>,
    i: int,
    upward: bool,
    channels: Seq<u16>,
    report: JoyReport,
)
    requires
        mapping.valid(),
        0 <= i < 6,
        panels.len() == 5,
        watches.len() == 5,
        words.len() == 4,
        panels[0].encoders[i] == EncoderState::Idle,
        panels[0].pulses[i].count == 0,
        forall|t: int|
            0 <= t < 4 ==> panels[t].has_room(mapping, #[trigger] words[t], watches[t]) && panels[t
                + 1].has_read(panels[t], mapping, words[t], watches[t], watches[t + 1]),
        ({
            let leading = if upward {
                mapping.encoders[i].1 as u64
            } else {
                mapping.encoders[i].2 as u64
            };
            let trailing = if upward {
                mapping.encoders[i].2 as u64
            } else {
                mapping.encoders[i].1 as u64
            };
            forall|t: int|
                0 <= t < 4 ==> {
                    &&& (#[trigger] words[t]) & (1u64 << leading) == 0 <==> t < 2
                    &&& words[t] & (1u64 << trailing) == 0 <==> 1 <= t < 3
                }
        }),
        report.shows(mapping, panels[4].final_value, panels[4].pulses@, channels),
    ensures
        report.button(46 + 3 * i) == upward,
        report.button(45 + 3 * i) == !upward,
        panels[4].pulses[i].popped().count == 0,
{
    expander::law_turned_encoder_queues_one_pulse(mapping, panels, watches, words, i, upward);
    law_report_shows_what_it_is_made_from(
        report,
        mapping,
        panels[4].final_value,
        panels[4].pulses@,
        channels,
        i,
    );
}

} // verus!
