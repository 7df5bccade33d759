//! The four port expanders that the switches and encoders hang on, sixteen lines each.
use vstd::prelude::*;

use crate::bits;
use crate::bits::line_low;
use crate::encoder::{
    can_step, count_step, CountedPulse, EncoderDirection, EncoderState, PulseState,
};
use crate::mapping::DeviceMapping;
use crate::ticks::ticks_between;

verus! {

/// The bus address of an expander.
pub fn port_address(index: usize) -> (address: u8)
    requires
        index < 4,
    ensures
        address == 0x20 + 2 * index,
{
    match index {
        0 => 0x20,
        1 => 0x22,
        2 => 0x24,
        _ => 0x26,
    }
}

/// What to do next on the bus: poll one expander, or put the polled lines into effect.
#[derive(Clone, Copy, Debug, PartialEq, Eq, Structural)]
pub enum I2cTask {
    Poll(usize),
    Assemble,
}

impl I2cTask {
    /// Whether the task names an expander that exists.
    pub open spec fn valid(self) -> bool {
        self matches I2cTask::Poll(index) ==> index < 4
    }

    /// The task that follows: the expanders are polled in turn, then the lines are put into
    /// effect, then it starts over.
    pub open spec fn successor(self) -> I2cTask {
        match self {
            I2cTask::Poll(index) => if index < 3 {
                I2cTask::Poll((index + 1) as usize)
            } else {
                I2cTask::Assemble
            },
            I2cTask::Assemble => I2cTask::Poll(0),
        }
    }

    /// The task that comes `steps` later.
    pub open spec fn later(self, steps: nat) -> I2cTask
        decreases steps,
    {
        if steps == 0 {
            self
        } else {
            self.successor().later((steps - 1) as nat)
        }
    }

    pub fn next(&self) -> (task: I2cTask)
        ensures
            task == self.successor(),
            task == match *self {
                I2cTask::Poll(index) => if index >= 3 {
                    I2cTask::Assemble
                } else {
                    I2cTask::Poll((index + 1) as usize)
                },
                I2cTask::Assemble => I2cTask::Poll(0),
            },
    {
        match self {
            I2cTask::Poll(index) if *index >= 3 => I2cTask::Assemble,
            I2cTask::Poll(index) => I2cTask::Poll(*index + 1),
            I2cTask::Assemble => I2cTask::Poll(0),
        }
    }
}

/// Every task that follows names an expander that exists, and the round repeats after four polls
/// and one assembly.
pub proof fn law_tasks_go_round(task: I2cTask)
    requires
        task.valid(),
    ensures
        task.successor().valid(),
        task.later(5) == task,
{
    reveal_with_fuel(I2cTask::later, 6);
}

/// A round polls the expanders in turn and then assembles: from the first poll on, task `k` polls
/// expander `k`, and the task after the last expander puts the lines into effect.
pub proof fn law_round_polls_in_turn(k: nat)
    ensures
        k < 4 ==> I2cTask::Poll(0).later(k) == I2cTask::Poll(k as usize),
        I2cTask::Poll(0).later(4) == I2cTask::Assemble,
        I2cTask::Assemble.successor() == I2cTask::Poll(0),
{
    reveal_with_fuel(I2cTask::later, 5);
}

/// Whatever expander a task names, the next one is polled after it, or the lines are put into
/// effect if there is none.
pub proof fn law_poll_leads_to_next_expander(index: usize)
    ensures
        index < 3 ==> I2cTask::Poll(index).successor() == I2cTask::Poll((index + 1) as usize),
        index >= 3 ==> I2cTask::Poll(index).successor() == I2cTask::Assemble,
{
}

/// Whether line `line` is high in the word of all lines after an expander gave `result`: the first
/// byte holds its lines 0 to 7, the second its lines 8 to 15, and the lines of the other expanders
/// stay as they were.
pub open spec fn polled_line(word: u64, index: int, result: Seq<u8>, line: int) -> bool {
    let own = line - 16 * index;
    if 0 <= own < 8 {
        (result[0] >> (own as u8)) & 1 == 1
    } else if 8 <= own < 16 {
        (result[1] >> ((own - 8) as u8)) & 1 == 1
    } else {
        bits::bit(word, line)
    }
}

/// The word of all lines after an expander gave `result`.
pub open spec fn merged(word: u64, index: int, result: Seq<u8>) -> u64 {
    let shift = (16 * index) as u64;
    word & !(0xffffu64 << shift) | ((result[0] as u64) << shift) | ((result[1] as u64) << ((shift
        + 8) as u64))
}

/// Merging replaces the lines of the polled expander and no others.
pub proof fn law_merge_replaces_own_lines(word: u64, index: int, result: Seq<u8>, line: int)
    requires
        0 <= index < 4,
    ensures
        bits::bit(merged(word, index, result), line) == polled_line(word, index, result, line),
{
    if 0 <= line < 64 {
        let shift = (16 * index) as u64;
        let low = result[0];
        let high = result[1];
        let k = line as u64;
        let own = (line - 16 * index) as u8;
        let upper = (line - 16 * index - 8) as u8;
        let all = word & !(0xffffu64 << shift) | ((low as u64) << shift) | ((high as u64) << ((shift
            + 8) as u64));
        if shift <= k < shift + 8 {
            assert((all >> k) & 1 == 1 <==> (low >> own) & 1 == 1) by (bit_vector)
                requires
                    all == word & !(0xffffu64 << shift) | ((low as u64) << shift) | ((high as u64)
                        << ((shift + 8) as u64)),
                    shift <= 48,
                    k < 64,
                    k == shift + own,
                    own < 8,
            ;
        } else if shift + 8 <= k < shift + 16 {
            assert((all >> k) & 1 == 1 <==> (high >> upper) & 1 == 1) by (bit_vector)
                requires
                    all == word & !(0xffffu64 << shift) | ((low as u64) << shift) | ((high as u64)
                        << ((shift + 8) as u64)),
                    shift <= 48,
                    k < 64,
                    k == shift + 8 + upper,
                    upper < 8,
            ;
        } else {
            assert((all >> k) & 1 == 1 <==> (word >> k) & 1 == 1) by (bit_vector)
                requires
                    all == word & !(0xffffu64 << shift) | ((low as u64) << shift) | ((high as u64)
                        << ((shift + 8) as u64)),
                    shift <= 48,
                    k < 64,
                    k < shift || shift + 16 <= k,
            ;
        }
    }
}

/// After a merge the sixteen lines of the polled expander read as the number that its two bytes
/// make, the first the lower, and the sixteen lines of every other expander read as before.
pub proof fn law_merge_puts_in_the_bytes(word: u64, index: int, result: Seq<u8>, other: int)
    requires
        0 <= index < 4,
        0 <= other < 4,
    ensures
        (merged(word, index, result) >> ((16 * index) as u64)) & 0xffff == result[0] + 256
            * result[1],
        other != index ==> (merged(word, index, result) >> ((16 * other) as u64)) & 0xffff == (word
            >> ((16 * other) as u64)) & 0xffff,
{
    let shift = (16 * index) as u64;
    let at = (16 * other) as u64;
    let low = result[0];
    let high = result[1];
    let all = word & !(0xffffu64 << shift) | ((low as u64) << shift) | ((high as u64) << ((shift
        + 8) as u64));
    assert((all >> shift) & 0xffff == low + 256 * high) by (bit_vector)
        requires
            all == word & !(0xffffu64 << shift) | ((low as u64) << shift) | ((high as u64)
                << ((shift + 8) as u64)),
            shift <= 48,
    ;
    if other != index {
        assert((all >> at) & 0xffff == (word >> at) & 0xffff) by (bit_vector)
            requires
                all == word & !(0xffffu64 << shift) | ((low as u64) << shift) | ((high as u64)
                    << ((shift + 8) as u64)),
                shift <= 48,
                at <= 48,
                shift >= at + 16 || at >= shift + 16,
        ;
    }
}

/// Each line of a polled expander shows its own bit: line `k` bit `k` of the first byte, line
/// `8 + k` bit `k` of the second, whatever the other byte holds.
pub proof fn law_merged_line_is_its_bit(word: u64, index: int, result: Seq<u8>, k: u8)
    requires
        0 <= index < 4,
        k < 8,
    ensures
        bits::bit(merged(word, index, result), 16 * index + k) <==> (result[0] >> k) & 1 == 1,
        bits::bit(merged(word, index, result), 16 * index + 8 + k) <==> (result[1] >> k) & 1 == 1,
        polled_line(word, index, result, 16 * index + k) <==> (result[0] >> k) & 1 == 1,
        polled_line(word, index, result, 16 * index + 8 + k) <==> (result[1] >> k) & 1 == 1,
        forall|line: int|
            line < 16 * index || 16 * index + 16 <= line ==> #[trigger] polled_line(
                word,
                index,
                result,
                line,
            ) == bits::bit(word, line),
{
    law_merge_replaces_own_lines(word, index, result, 16 * index + k);
    law_merge_replaces_own_lines(word, index, result, 16 * index + 8 + k);
}

/// Once every expander has been polled, nothing is left of the lines before.
pub proof fn law_full_round_replaces_all_lines(
    word: u64,
    other: u64,
    result0: Seq<u8>,
    result1: Seq<u8>,
    result2: Seq<u8>,
    result3: Seq<u8>,
)
    ensures
        merged(merged(merged(merged(word, 0, result0), 1, result1), 2, result2), 3, result3)
            == merged(
            merged(merged(merged(other, 0, result0), 1, result1), 2, result2),
            3,
            result3,
        ),
{
    let word1 = merged(word, 0, result0);
    let word2 = merged(word1, 1, result1);
    let word3 = merged(word2, 2, result2);
    let other1 = merged(other, 0, result0);
    let other2 = merged(other1, 1, result1);
    let other3 = merged(other2, 2, result2);
    assert forall|line: int| 0 <= line < 64 implies #[trigger] bits::bit(
        merged(word3, 3, result3),
        line,
    ) == bits::bit(merged(other3, 3, result3), line) by {
        law_merge_replaces_own_lines(word, 0, result0, line);
        law_merge_replaces_own_lines(word1, 1, result1, line);
        law_merge_replaces_own_lines(word2, 2, result2, line);
        law_merge_replaces_own_lines(word3, 3, result3, line);
        law_merge_replaces_own_lines(other, 0, result0, line);
        law_merge_replaces_own_lines(other1, 1, result1, line);
        law_merge_replaces_own_lines(other2, 2, result2, line);
        law_merge_replaces_own_lines(other3, 3, result3, line);
    }
    bits::law_bits_determine_word(merged(word3, 3, result3), merged(other3, 3, result3));
}

/// The sixteen lines of an expander, as a number.
pub open spec fn lane(word: u64, index: int) -> u64 {
    (word >> ((16 * index) as u64)) & 0xffff
}

/// Puts the two bytes that an expander gave in place of its lines.
pub fn merge_port(word: u64, index: usize, result: [u8; 2]) -> (replaced: u64)
    requires
        index < 4,
    ensures
        replaced == merged(word, index as int, result@),
        forall|line: int| #[trigger]
            bits::bit(replaced, line) == polled_line(word, index as int, result@, line),
        (replaced >> ((16 * index) as u64)) & 0xffff == result[0] + 256 * result[1],
        forall|other: int|
            0 <= other < 4 && other != index ==> #[trigger] lane(replaced, other) == lane(
                word,
                other,
            ),
{
    let shift: u64 = index as u64 * 16;
    let mut replaced: u64 = word & !(0xffffu64 << shift);
    replaced = replaced | ((result[0] as u64) << shift);
    replaced = replaced | ((result[1] as u64) << (shift + 8));
    proof {
        assert forall|line: int| #[trigger]
            bits::bit(replaced, line) == polled_line(word, index as int, result@, line) by {
            law_merge_replaces_own_lines(word, index as int, result@, line);
        }
        law_merge_puts_in_the_bytes(word, index as int, result@, index as int);
        assert forall|other: int| 0 <= other < 4 && other != index implies #[trigger] lane(
            replaced,
            other,
        ) == lane(word, other) by {
            law_merge_puts_in_the_bytes(word, index as int, result@, other);
        }
    }
    replaced
}

/// What one reading of an encoder brought: the contacts where they moved, and the pulse that it
/// emitted.
#[derive(Clone, Copy, Debug, PartialEq, Eq)]
pub struct EncoderStep {
    pub moved: Option<(bool, bool)>,
    pub pulse: Option<CountedPulse>,
}

/// What a task has seen of the encoders: their contacts as last read, and the pulses counted.
#[derive(Clone, Copy, Debug)]
pub struct EncoderWatch {
    pub pin_state: [(bool, bool); 6],
    pub count: [i32; 6],
}

impl EncoderWatch {
    pub fn new() -> (watch: EncoderWatch)
        ensures
            forall|i: int| 0 <= i < 6 ==> #[trigger] watch.pin_state[i] == (false, false),
            forall|i: int| 0 <= i < 6 ==> #[trigger] watch.count[i] == 0,
    {
        EncoderWatch { pin_state: [(false, false);6], count: [0;6] }
    }
}

/// The state of the panel that the bus tasks keep and the report is made from.
#[derive(Clone, Copy, Debug)]
pub struct Panel {
    /// The lines as polled so far.
    pub value: u64,
    /// The lines that are in effect.
    pub final_value: u64,
    pub encoders: [EncoderState; 6],
    pub pulses: [PulseState; 6],
    /// When the lines were last put into effect by the polling round, and how long the round
    /// before took, in ticks.
    pub last_assemble_time: u64,
    pub duration: u64,
}

/// The contacts (A closed, B closed) of encoder `i`. A closed contact pulls its line low.
pub open spec fn contacts(mapping: DeviceMapping, lines: u64, i: int) -> (bool, bool) {
    (
        !bits::bit(lines, mapping.encoders[i].1 as int),
        !bits::bit(lines, mapping.encoders[i].2 as int),
    )
}

/// The pulse that encoder `i` emits when it is read off `lines`.
pub open spec fn pulse_from(
    mapping: DeviceMapping,
    lines: u64,
    encoders: Seq<EncoderState>,
    i: int,
) -> Option<EncoderDirection> {
    let (a, b) = contacts(mapping, lines, i);
    encoders[i].emitted(a, b)
}

/// The pulses of an encoder that wait, after a reading that emitted `pulse`.
pub open spec fn waiting_after(state: PulseState, pulse: Option<EncoderDirection>) -> PulseState {
    match pulse {
        Some(direction) => state.pushed(direction),
        None => state,
    }
}

/// Whether the counters of encoder `i` can take what a reading off `lines` brings.
pub open spec fn encoder_has_room(
    mapping: DeviceMapping,
    lines: u64,
    encoders: Seq<EncoderState>,
    pulses: Seq<PulseState>,
    count: Seq<i32>,
    i: int,
) -> bool {
    let pulse = pulse_from(mapping, lines, encoders, i);
    &&& CountedPulse::has_room(pulse, count[i])
    &&& pulse == Some(pulses[i].direction) ==> pulses[i].count < usize::MAX
}

/// What reading encoder `i` off `lines` brings.
pub open spec fn encoder_step(
    mapping: DeviceMapping,
    lines: u64,
    encoders: Seq<EncoderState>,
    watch: EncoderWatch,
    i: int,
) -> EncoderStep {
    EncoderStep {
        moved: if contacts(mapping, lines, i) != watch.pin_state[i] {
            Some(contacts(mapping, lines, i))
        } else {
            None
        },
        pulse: CountedPulse::of(pulse_from(mapping, lines, encoders, i), watch.count[i]),
    }
}

/// Whether the counters of every encoder can take what a reading off `lines` brings.
pub open spec fn encoders_have_room(
    mapping: DeviceMapping,
    lines: u64,
    encoders: Seq<EncoderState>,
    pulses: Seq<PulseState>,
    count: Seq<i32>,
) -> bool {
    forall|i: int|
        0 <= i < 6 ==> #[trigger] encoder_has_room(mapping, lines, encoders, pulses, count, i)
}

/// Reads every encoder off `lines`, and queues and counts the pulses that this emits.
pub fn update_encoders(
    mapping: &DeviceMapping,
    lines: u64,
    encoders: &mut [EncoderState; 6],
    pulses: &mut [PulseState; 6],
    watch: &mut EncoderWatch,
) -> (steps: [EncoderStep; 6])
    requires
        mapping.valid(),
        encoders_have_room(*mapping, lines, old(encoders)@, old(pulses)@, old(watch).count@),
    ensures
        forall|i: int|
            0 <= i < 6 ==> #[trigger] final(encoders)[i] == old(encoders)[i].after(
                contacts(*mapping, lines, i).0,
                contacts(*mapping, lines, i).1,
            ),
        forall|i: int|
            0 <= i < 6 ==> #[trigger] final(pulses)[i] == waiting_after(
                old(pulses)[i],
                pulse_from(*mapping, lines, old(encoders)@, i),
            ),
        forall|i: int|
            0 <= i < 6 ==> #[trigger] final(watch).pin_state[i] == contacts(*mapping, lines, i),
        forall|i: int|
            0 <= i < 6 ==> #[trigger] final(watch).count[i] == CountedPulse::count_after(
                pulse_from(*mapping, lines, old(encoders)@, i),
                old(watch).count[i],
            ),
        forall|i: int|
            0 <= i < 6 ==> #[trigger] steps[i] == encoder_step(
                *mapping,
                lines,
                old(encoders)@,
                *old(watch),
                i,
            ),
        forall|i: int|
            0 <= i < 6 ==> #[trigger] final(watch).pin_state[i] == (
                (lines >> (mapping.encoders[i].1 as u64)) & 1 == 0,
                (lines >> (mapping.encoders[i].2 as u64)) & 1 == 0,
            ),
        forall|i: int|
            0 <= i < 6 ==> #[trigger] final(encoders)[i] == old(encoders)[i].after(
                final(watch).pin_state[i].0,
                final(watch).pin_state[i].1,
            ),
        forall|i: int|
            0 <= i < 6 ==> (#[trigger] steps[i]).moved == if final(watch).pin_state[i]
                != old(watch).pin_state[i] {
                Some(final(watch).pin_state[i])
            } else {
                None
            },
        forall|i: int|
            0 <= i < 6 ==> match old(encoders)[i].emitted(
                final(watch).pin_state[i].0,
                final(watch).pin_state[i].1,
            ) {
                Some(direction) => {
                    &&& (#[trigger] steps[i]).pulse == Some(
                        CountedPulse { direction, count: final(watch).count[i] },
                    )
                    &&& final(watch).count[i] == old(watch).count[i] + if direction
                        == EncoderDirection::Increment {
                        1int
                    } else {
                        -1
                    }
                    &&& final(pulses)[i] == old(pulses)[i].pushed(direction)
                },
                None => {
                    &&& steps[i].pulse is None
                    &&& final(watch).count[i] == old(watch).count[i]
                    &&& final(pulses)[i] == old(pulses)[i]
                },
            },
{
    let mut steps: [EncoderStep; 6] = [EncoderStep { moved: None, pulse: None };6];
    let mut i: usize = 0;
    while i < 6
        invariant
            i <= 6,
            mapping.valid(),
            encoders_have_room(*mapping, lines, old(encoders)@, old(pulses)@, old(watch).count@),
            forall|j: int|
                0 <= j < 6 ==> #[trigger] encoders[j] == if j < i {
                    old(encoders)[j].after(
                        contacts(*mapping, lines, j).0,
                        contacts(*mapping, lines, j).1,
                    )
                } else {
                    old(encoders)[j]
                },
            forall|j: int|
                0 <= j < 6 ==> #[trigger] pulses[j] == if j < i {
                    waiting_after(old(pulses)[j], pulse_from(*mapping, lines, old(encoders)@, j))
                } else {
                    old(pulses)[j]
                },
            forall|j: int|
                0 <= j < 6 ==> #[trigger] watch.pin_state[j] == if j < i {
                    contacts(*mapping, lines, j)
                } else {
                    old(watch).pin_state[j]
                },
            forall|j: int|
                0 <= j < 6 ==> #[trigger] watch.count[j] == if j < i {
                    CountedPulse::count_after(
                        pulse_from(*mapping, lines, old(encoders)@, j),
                        old(watch).count[j],
                    )
                } else {
                    old(watch).count[j] as int
                },
            forall|j: int|
                0 <= j < i ==> #[trigger] steps[j] == encoder_step(
                    *mapping,
                    lines,
                    old(encoders)@,
                    *old(watch),
                    j,
                ),
        decreases 6 - i,
    {
        assert(encoder_has_room(
            *mapping,
            lines,
            old(encoders)@,
            old(pulses)@,
            old(watch).count@,
            i as int,
        ));
        let (_, line_a, line_b): (usize, usize, usize) = mapping.encoders[i];
        let a: bool = line_low(lines, line_a);
        let b: bool = line_low(lines, line_b);
        let mut step = EncoderStep { moved: None, pulse: None };
        let (last_a, last_b): (bool, bool) = watch.pin_state[i];
        if a != last_a || b != last_b {
            step.moved = Some((a, b));
            watch.pin_state[i] = (a, b);
        }
        if let Some(direction) = encoders[i].update(a, b) {
            pulses[i].push(direction);
            let count: i32 = count_step(watch.count[i], direction);
            watch.count[i] = count;
            step.pulse = Some(CountedPulse { direction, count });
        }
        steps[i] = step;
        i = i + 1;
    }
    proof {
        assert forall|i: int| 0 <= i < 6 implies #[trigger] watch.pin_state[i] == (
            (lines >> (mapping.encoders[i].1 as u64)) & 1 == 0,
            (lines >> (mapping.encoders[i].2 as u64)) & 1 == 0,
        ) by {
            law_contact_is_closed_while_its_line_is_low(*mapping, lines, i);
        }
    }
    steps
}

impl Panel {
    /// All lines high, every encoder at rest, and no pulse waiting.
    pub fn new() -> (panel: Panel)
        ensures
            panel.value == 0xffff_ffff_ffff_ffff,
            panel.final_value == 0xffff_ffff_ffff_ffff,
            forall|i: int| 0 <= i < 6 ==> #[trigger] panel.encoders[i] == EncoderState::Idle,
            forall|i: int|
                0 <= i < 6 ==> #[trigger] panel.pulses[i] == (PulseState {
                    direction: EncoderDirection::Decrement,
                    count: 0,
                }),
            panel.last_assemble_time == 0,
            panel.duration == 0,
    {
        Panel {
            value: 0xffff_ffff_ffff_ffff,
            final_value: 0xffff_ffff_ffff_ffff,
            encoders: [EncoderState::new();6],
            pulses: [PulseState::new();6],
            last_assemble_time: 0,
            duration: 0,
        }
    }

    /// Whether the counters of every encoder can take a reading off `lines`.
    pub open spec fn has_room(
        self,
        mapping: DeviceMapping,
        lines: u64,
        watch: EncoderWatch,
    ) -> bool {
        encoders_have_room(mapping, lines, self.encoders@, self.pulses@, watch.count@)
    }

    /// Tests whether the counters of every encoder can take a reading off `lines`.
    pub fn can_read(&self, mapping: &DeviceMapping, lines: u64, watch: &EncoderWatch) -> (can: bool)
        requires
            mapping.valid(),
        ensures
            can == self.has_room(*mapping, lines, *watch),
    {
        let mut i: usize = 0;
        while i < 6
            invariant
                i <= 6,
                mapping.valid(),
                forall|j: int|
                    0 <= j < i ==> #[trigger] encoder_has_room(
                        *mapping,
                        lines,
                        self.encoders@,
                        self.pulses@,
                        watch.count@,
                        j,
                    ),
            decreases 6 - i,
        {
            let (_, line_a, line_b): (usize, usize, usize) = mapping.encoders[i];
            let mut state: EncoderState = self.encoders[i];
            let pulse: Option<EncoderDirection> = state.update(
                line_low(lines, line_a),
                line_low(lines, line_b),
            );
            assert(pulse == pulse_from(*mapping, lines, self.encoders@, i as int));
            if let Some(direction) = pulse {
                let waiting: PulseState = self.pulses[i];
                if !can_step(watch.count[i], direction) || (direction == waiting.direction
                    && waiting.count == usize::MAX) {
                    assert(!encoder_has_room(
                        *mapping,
                        lines,
                        self.encoders@,
                        self.pulses@,
                        watch.count@,
                        i as int,
                    ));
                    return false;
                }
            }
            i = i + 1;
        }
        true
    }

    /// Whether this is the panel `before` with `lines` put into effect and every encoder read off
    /// them once, and `watch` what the reading task has then seen.
    pub open spec fn has_read(
        self,
        before: Panel,
        mapping: DeviceMapping,
        lines: u64,
        watch_before: EncoderWatch,
        watch: EncoderWatch,
    ) -> bool {
        &&& self.final_value == lines
        &&& forall|i: int|
            0 <= i < 6 ==> #[trigger] self.encoders[i] == before.encoders[i].after(
                contacts(mapping, lines, i).0,
                contacts(mapping, lines, i).1,
            )
        &&& forall|i: int|
            0 <= i < 6 ==> #[trigger] self.pulses[i] == waiting_after(
                before.pulses[i],
                pulse_from(mapping, lines, before.encoders@, i),
            )
        &&& forall|i: int|
            0 <= i < 6 ==> #[trigger] watch.pin_state[i] == contacts(mapping, lines, i)
        &&& forall|i: int|
            0 <= i < 6 ==> #[trigger] watch.count[i] == CountedPulse::count_after(
                pulse_from(mapping, lines, before.encoders@, i),
                watch_before.count[i],
            )
    }

    /// Takes in what a polled expander gave. It has no effect yet.
    pub fn poll(&mut self, index: usize, result: [u8; 2])
        requires
            index < 4,
        ensures
            *final(self) == (Panel {
                value: merged(old(self).value, index as int, result@),
                ..*old(self)
            }),
            (final(self).value >> ((16 * index) as u64)) & 0xffff == result[0] + 256 * result[1],
            final(self).final_value == old(self).final_value,
            final(self).encoders == old(self).encoders,
            final(self).pulses == old(self).pulses,
            final(self).last_assemble_time == old(self).last_assemble_time,
            final(self).duration == old(self).duration,
    {
        self.value = merge_port(self.value, index, result);
    }

    /// Puts the polled lines into effect at the end of a polling round, and times the round.
    pub fn assemble(
        &mut self,
        mapping: &DeviceMapping,
        watch: &mut EncoderWatch,
        now: u64,
    ) -> (steps: [EncoderStep; 6])
        requires
            mapping.valid(),
            old(self).has_room(*mapping, old(self).value, *old(watch)),
            old(self).last_assemble_time <= now,
        ensures
            final(self).has_read(
                *old(self),
                *mapping,
                old(self).value,
                *old(watch),
                *final(watch),
            ),
            final(self).value == old(self).value,
            final(self).final_value == old(self).value,
            forall|i: int|
                0 <= i < 6 ==> (#[trigger] steps[i]).moved == if final(watch).pin_state[i]
                    != old(watch).pin_state[i] {
                    Some(final(watch).pin_state[i])
                } else {
                    None
                },
            final(self).last_assemble_time == now,
            final(self).duration == now - old(self).last_assemble_time,
            forall|i: int|
                0 <= i < 6 ==> #[trigger] steps[i] == encoder_step(
                    *mapping,
                    old(self).value,
                    old(self).encoders@,
                    *old(watch),
                    i,
                ),
    {
        let lines: u64 = self.value;
        self.final_value = lines;
        let steps: [EncoderStep; 6] = update_encoders(
            mapping,
            lines,
            &mut self.encoders,
            &mut self.pulses,
            watch,
        );
        self.duration = ticks_between(now, self.last_assemble_time);
        self.last_assemble_time = now;
        steps
    }

    /// Takes in what an expander gave after it signalled a change, and puts the lines into effect
    /// at once.
    pub fn interrupt(
        &mut self,
        mapping: &DeviceMapping,
        watch: &mut EncoderWatch,
        index: usize,
        result: [u8; 2],
    ) -> (steps: [EncoderStep; 6])
        requires
            mapping.valid(),
            index < 4,
            old(self).has_room(
                *mapping,
                merged(old(self).value, index as int, result@),
                *old(watch),
            ),
        ensures
            final(self).value == merged(old(self).value, index as int, result@),
            (final(self).value >> ((16 * index) as u64)) & 0xffff == result[0] + 256 * result[1],
            final(self).final_value == final(self).value,
            forall|i: int|
                0 <= i < 6 ==> (#[trigger] steps[i]).moved == if final(watch).pin_state[i]
                    != old(watch).pin_state[i] {
                    Some(final(watch).pin_state[i])
                } else {
                    None
                },
            final(self).has_read(
                *old(self),
                *mapping,
                final(self).value,
                *old(watch),
                *final(watch),
            ),
            final(self).last_assemble_time == old(self).last_assemble_time,
            final(self).duration == old(self).duration,
            forall|i: int|
                0 <= i < 6 ==> #[trigger] steps[i] == encoder_step(
                    *mapping,
                    final(self).value,
                    old(self).encoders@,
                    *old(watch),
                    i,
                ),
    {
        self.value = merge_port(self.value, index, result);
        let lines: u64 = self.value;
        self.final_value = lines;
        update_encoders(mapping, lines, &mut self.encoders, &mut self.pulses, watch)
    }
}

/// A contact is closed exactly while its own line is low: A the line in the middle of the wiring of
/// its encoder, B the last one.
pub proof fn law_contact_is_closed_while_its_line_is_low(
    mapping: DeviceMapping,
    lines: u64,
    i: int,
)
    requires
        mapping.valid(),
        0 <= i < 6,
    ensures
        contacts(mapping, lines, i).0 <==> lines & (1u64 << (mapping.encoders[i].1 as u64)) == 0,
        contacts(mapping, lines, i).1 <==> lines & (1u64 << (mapping.encoders[i].2 as u64)) == 0,
        contacts(mapping, lines, i).0 <==> (lines >> (mapping.encoders[i].1 as u64)) & 1 == 0,
        contacts(mapping, lines, i).1 <==> (lines >> (mapping.encoders[i].2 as u64)) & 1 == 0,
{
    let a = mapping.encoders[i].1 as u64;
    let b = mapping.encoders[i].2 as u64;
    assert(mapping.encoders[i].1 < 64 && mapping.encoders[i].2 < 64);
    bits::law_bit_is_masked(lines, a);
    bits::law_bit_is_masked(lines, b);
    assert((lines >> a) & 1 == 0 || (lines >> a) & 1 == 1) by (bit_vector);
    assert((lines >> b) & 1 == 0 || (lines >> b) & 1 == 1) by (bit_vector);
}

/// What a reading brings follows from the two lines of the encoder alone: the pulse is the one that
/// the encoder emits when A is closed while its line is low and B while its own is, it joins those
/// that wait, and the contacts are noted if they are not those seen last.
pub proof fn law_reading_follows_the_lines(
    mapping: DeviceMapping,
    lines: u64,
    encoders: Seq<EncoderState>,
    pulses: Seq<PulseState>,
    watch: EncoderWatch,
    i: int,
)
    requires
        mapping.valid(),
        0 <= i < 6,
        encoder_has_room(mapping, lines, encoders, pulses, watch.count@, i),
    ensures
        ({
            let a = lines & (1u64 << (mapping.encoders[i].1 as u64)) == 0;
            let b = lines & (1u64 << (mapping.encoders[i].2 as u64)) == 0;
            let pulse = pulse_from(mapping, lines, encoders, i);
            let step = encoder_step(mapping, lines, encoders, watch, i);
            let waiting = waiting_after(pulses[i], pulse);
            &&& pulse == encoders[i].emitted(a, b)
            &&& step.moved == if (a, b) != watch.pin_state[i] {
                Some((a, b))
            } else {
                None
            }
            &&& match pulse {
                Some(direction) => {
                    &&& step.pulse matches Some(counted) && counted.direction == direction
                        && counted.count == watch.count[i] + if direction
                        == EncoderDirection::Increment {
                        1int
                    } else {
                        -1
                    }
                    &&& waiting.net() == pulses[i].net() + if direction
                        == EncoderDirection::Increment {
                        1int
                    } else {
                        -1
                    }
                },
                None => step.pulse is None && waiting == pulses[i],
            }
        }),
{
    law_contact_is_closed_while_its_line_is_low(mapping, lines, i);
}

/// Room is lacking only for a pulse that comes: in the count at its own limit, or among the pulses
/// that wait in its direction.
pub proof fn law_room_lacks_only_at_the_limits(
    mapping: DeviceMapping,
    lines: u64,
    encoders: Seq<EncoderState>,
    pulses: Seq<PulseState>,
    count: Seq<i32>,
    i: int,
)
    ensures
        encoder_has_room(mapping, lines, encoders, pulses, count, i) <==> match pulse_from(
            mapping,
            lines,
            encoders,
            i,
        ) {
            Some(direction) => {
                &&& direction == EncoderDirection::Increment ==> count[i] < i32::MAX
                &&& direction == EncoderDirection::Decrement ==> count[i] > i32::MIN
                &&& direction == pulses[i].direction ==> pulses[i].count < usize::MAX
            },
            None => true,
        },
{
}

/// What a reading of the whole panel does: the lines go into effect, and every encoder, its waiting
/// pulses and its count move by what its own two lines say.
pub proof fn law_panel_reading_moves_every_encoder(
    before: Panel,
    after: Panel,
    mapping: DeviceMapping,
    lines: u64,
    watch_before: EncoderWatch,
    watch: EncoderWatch,
    i: int,
)
    requires
        mapping.valid(),
        0 <= i < 6,
        before.has_room(mapping, lines, watch_before),
        after.has_read(before, mapping, lines, watch_before, watch),
    ensures
        ({
            let a = lines & (1u64 << (mapping.encoders[i].1 as u64)) == 0;
            let b = lines & (1u64 << (mapping.encoders[i].2 as u64)) == 0;
            let pulse = before.encoders[i].emitted(a, b);
            let step = match pulse {
                Some(EncoderDirection::Increment) => 1int,
                Some(EncoderDirection::Decrement) => -1,
                None => 0,
            };
            &&& after.final_value == lines
            &&& after.encoders[i] == before.encoders[i].after(a, b)
            &&& watch.pin_state[i] == (a, b)
            &&& watch.count[i] == watch_before.count[i] + step
            &&& after.pulses[i].net() == before.pulses[i].net() + step
            &&& after.pulses[i] == match pulse {
                Some(direction) => before.pulses[i].pushed(direction),
                None => before.pulses[i],
            }
        }),
{
    assert(encoder_has_room(
        mapping,
        lines,
        before.encoders@,
        before.pulses@,
        watch_before.count@,
        i,
    ));
    law_reading_follows_the_lines(
        mapping,
        lines,
        before.encoders@,
        before.pulses@,
        watch_before,
        i,
    );
    law_contact_is_closed_while_its_line_is_low(mapping, lines, i);
    assert(after.encoders[i] == before.encoders[i].after(
        contacts(mapping, lines, i).0,
        contacts(mapping, lines, i).1,
    ));
    assert(after.pulses[i] == waiting_after(
        before.pulses[i],
        pulse_from(mapping, lines, before.encoders@, i),
    ));
    assert(watch.pin_state[i] == contacts(mapping, lines, i));
    assert(watch.count[i] == CountedPulse::count_after(
        pulse_from(mapping, lines, before.encoders@, i),
        watch_before.count[i],
    ));
}

/// Every encoder turns the right way. From rest, four readings of the panel in which line A of the
/// encoder is low in the first two and line B in the middle two, and both high in the last, queue
/// one increment. With A and B exchanged they queue one decrement. The encoder is then at rest.
pub proof fn law_turned_encoder_queues_one_pulse(
    mapping: DeviceMapping,
    panels: Seq<Panel>,
    watches: Seq<EncoderWatch>,
    words: Seq<u64>,
    i: int,
    upward: bool,
)
    requires
        mapping.valid(),
        0 <= i < 6,
        panels.len() == 5,
        watches.len() == 5,
        words.len() == 4,
        panels[0].encoders[i] == EncoderState::Idle,
        panels[0].pulses[i].count == 0,
        forall|t: int|
            0 <= t < 4 ==> panels[t].has_room(mapping, #[trigger] words[t], watches[t]) && panels[t
                + 1].has_read(panels[t], mapping, words[t], watches[t], watches[t + 1]),
        ({
            let leading = if upward {
                mapping.encoders[i].1 as u64
            } else {
                mapping.encoders[i].2 as u64
            };
            let trailing = if upward {
                mapping.encoders[i].2 as u64
            } else {
                mapping.encoders[i].1 as u64
            };
            forall|t: int|
                0 <= t < 4 ==> {
                    &&& (#[trigger] words[t]) & (1u64 << leading) == 0 <==> t < 2
                    &&& words[t] & (1u64 << trailing) == 0 <==> 1 <= t < 3
                }
        }),
    ensures
        panels[4].encoders[i] == EncoderState::Idle,
        panels[4].pulses[i].count == 1,
        panels[4].pulses[i].direction == if upward {
            EncoderDirection::Increment
        } else {
            EncoderDirection::Decrement
        },
        watches[4].count[i] == watches[0].count[i] + if upward {
            1int
        } else {
            -1
        },
{
    let (w0, w1, w2, w3) = (words[0], words[1], words[2], words[3]);
    assert(panels[0].has_room(mapping, w0, watches[0]));
    assert(panels[1].has_room(mapping, w1, watches[1]));
    assert(panels[2].has_room(mapping, w2, watches[2]));
    assert(panels[3].has_room(mapping, w3, watches[3]));
    law_panel_reading_moves_every_encoder(
        panels[0],
        panels[1],
        mapping,
        w0,
        watches[0],
        watches[1],
        i,
    );
    law_panel_reading_moves_every_encoder(
        panels[1],
        panels[2],
        mapping,
        w1,
        watches[1],
        watches[2],
        i,
    );
    law_panel_reading_moves_every_encoder(
        panels[2],
        panels[3],
        mapping,
        w2,
        watches[2],
        watches[3],
        i,
    );
    law_panel_reading_moves_every_encoder(
        panels[3],
        panels[4],
        mapping,
        w3,
        watches[3],
        watches[4],
        i,
    );
}

} // verus!
