//! Quadrature decoding of the rotary encoders, and the pulses that wait to be reported.
use vstd::prelude::*;

verus! {

#[derive(Clone, Copy, Debug, PartialEq, Eq, Structural)]
pub enum EncoderDirection {
    Increment,
    Decrement,
}

impl EncoderDirection {
    /// The direction as a step on the number line.
    pub open spec fn sign(self) -> int {
        match self {
            EncoderDirection::Increment => 1,
            EncoderDirection::Decrement => -1,
        }
    }

    /// The other direction.
    pub open spec fn mirror(self) -> EncoderDirection {
        match self {
            EncoderDirection::Increment => EncoderDirection::Decrement,
            EncoderDirection::Decrement => EncoderDirection::Increment,
        }
    }

    /// Whether the contact that closes last in this direction is closed: B when incrementing, A
    /// when decrementing.
    pub open spec fn trailing_contact(self, a: bool, b: bool) -> bool {
        match self {
            EncoderDirection::Increment => b,
            EncoderDirection::Decrement => a,
        }
    }
}

/// Tracks remaining pulses in a given direction
#[derive(Clone, Copy, Debug, PartialEq, Eq, Structural)]
pub struct PulseState {
    pub direction: EncoderDirection,
    pub count: usize,
}

impl PulseState {
    /// The pulses that remain, as a signed number of steps.
    pub open spec fn net(self) -> int {
        match self.direction {
            EncoderDirection::Increment => self.count as int,
            EncoderDirection::Decrement => -(self.count as int),
        }
    }

    /// What remains after one more step: a step against the remaining pulses cancels one of them.
    pub open spec fn pushed(self, direction: EncoderDirection) -> PulseState {
        if self.count > 0 && self.direction != direction {
            PulseState { direction: self.direction, count: (self.count - 1) as usize }
        } else {
            PulseState { direction, count: (self.count + 1) as usize }
        }
    }

    /// What remains after a run of steps, oldest first.
    pub open spec fn pushed_all(self, steps: Seq<EncoderDirection>) -> PulseState
        decreases steps.len(),
    {
        if steps.len() == 0 {
            self
        } else {
            self.pushed(steps[0]).pushed_all(steps.drop_first())
        }
    }

    /// What is left after one pulse is taken, if there is one.
    pub open spec fn popped(self) -> PulseState {
        if self.count > 0 {
            PulseState { direction: self.direction, count: (self.count - 1) as usize }
        } else {
            self
        }
    }

    /// The pulse that is taken next.
    pub open spec fn front(self) -> Option<EncoderDirection> {
        if self.count > 0 {
            Some(self.direction)
        } else {
            None
        }
    }

    /// The steps that come out when pulses are taken until none is left.
    pub open spec fn drained_net(self) -> int
        decreases self.count,
    {
        match self.front() {
            Some(direction) => direction.sign() + self.popped().drained_net(),
            None => 0,
        }
    }

    pub fn new() -> (state: PulseState)
        ensures
            state.count == 0,
            state.direction == EncoderDirection::Decrement,
    {
        PulseState { direction: EncoderDirection::Decrement, count: 0 }
    }

    /// Adds one step. A step against the remaining pulses cancels one of them.
    pub fn push(&mut self, direction: EncoderDirection)
        requires
            direction == old(self).direction ==> old(self).count < usize::MAX,
        ensures
            *final(self) == old(self).pushed(direction),
            direction == old(self).direction ==> final(self).direction == direction
                && final(self).count == old(self).count + 1,
            direction != old(self).direction && old(self).count == 0 ==> final(self).direction
                == direction && final(self).count == 1,
            direction != old(self).direction && old(self).count > 0 ==> final(self).direction
                == old(self).direction && final(self).count == old(self).count - 1,
            final(self).net() == old(self).net() + direction.sign(),
    {
        if direction == self.direction {
            self.count = self.count + 1;
        } else if self.count == 0 {
            self.count = 1;
            self.direction = direction;
        } else {
            self.count = self.count - 1;
        }
    }

    /// Takes one remaining pulse, if there is one.
    pub fn pop(&mut self) -> (pulse: Option<EncoderDirection>)
        ensures
            *final(self) == old(self).popped(),
            pulse == old(self).front(),
            final(self).direction == old(self).direction,
            old(self).count > 0 ==> pulse == Some(old(self).direction) && final(self).count
                == old(self).count - 1,
            old(self).count == 0 ==> pulse is None && final(self).count == 0,
    {
        if self.count > 0 {
            self.count = self.count - 1;
            Some(self.direction)
        } else {
            None
        }
    }
}

/// The steps of a run, added up.
pub open spec fn sum_of_steps(steps: Seq<EncoderDirection>) -> int
    decreases steps.len(),
{
    if steps.len() == 0 {
        0
    } else {
        steps[0].sign() + sum_of_steps(steps.drop_first())
    }
}

/// A run of steps moves what remains by their sum: steps in opposite directions cancel, whatever
/// their order.
pub proof fn law_steps_add_up(state: PulseState, steps: Seq<EncoderDirection>)
    requires
        state.count + steps.len() <= usize::MAX,
    ensures
        state.pushed_all(steps).net() == state.net() + sum_of_steps(steps),
    decreases steps.len(),
{
    if steps.len() > 0 {
        law_steps_add_up(state.pushed(steps[0]), steps.drop_first());
    }
}

/// What pulses come out add up to what went in: taking pulses until none is left gives exactly
/// the remaining steps.
pub proof fn law_pulses_are_conserved(state: PulseState)
    ensures
        state.drained_net() == state.net(),
    decreases state.count,
{
    if state.count > 0 {
        law_pulses_are_conserved(state.popped());
    }
}

/// Taking a pulse brings the remaining steps one nearer to zero, never past it.
pub proof fn law_pop_moves_toward_zero(state: PulseState)
    ensures
        state.front() is None <==> state.net() == 0,
        state.front() matches Some(direction) ==> state.popped().net() == state.net()
            - direction.sign() && direction.sign() * state.popped().net() >= 0,
{
}

/// States while incrementing, over the readings (A closed, B closed):
/// Idle --(1, 0)--> Ticking(Increment)
/// Idle --(0, 1)--> Ticking(Decrement)
/// Idle --(1, 1)--> AmbiguousMovement
/// Ticking --(0, 0)--> Idle
/// Ticking --(1, 1)--> Ticked (emit pulse!)
/// Ticking --(0, 1)--> Ticked (emit pulse!)
/// Ticked  --(0, 0)--> Idle
/// AmbiguousMovement --(0, 1)--> Ticked(Increment) (emit pulse!)
///
/// (decrementing is similar but with different EncoderDirection states)
#[derive(Clone, Copy, Debug, PartialEq, Eq, Structural)]
pub enum EncoderState {
    Idle,
    Ticking(EncoderDirection),
    Ticked(EncoderDirection),
    AmbiguousMovement,
}

impl EncoderState {
    /// The state after a reading of the two contacts.
    pub open spec fn after(self, a: bool, b: bool) -> EncoderState {
        match self {
            EncoderState::Idle => if a && b {
                EncoderState::AmbiguousMovement
            } else if a {
                EncoderState::Ticking(EncoderDirection::Increment)
            } else if b {
                EncoderState::Ticking(EncoderDirection::Decrement)
            } else {
                EncoderState::Idle
            },
            EncoderState::Ticking(direction) => if !a && !b {
                EncoderState::Idle
            } else if direction.trailing_contact(a, b) {
                EncoderState::Ticked(direction)
            } else {
                self
            },
            EncoderState::Ticked(_) => if !a && !b {
                EncoderState::Idle
            } else {
                self
            },
            EncoderState::AmbiguousMovement => if b && !a {
                EncoderState::Ticked(EncoderDirection::Increment)
            } else if a && !b {
                EncoderState::Ticked(EncoderDirection::Decrement)
            } else {
                self
            },
        }
    }

    /// The pulse that a reading emits: one for each arrival in `Ticked`.
    pub open spec fn emitted(self, a: bool, b: bool) -> Option<EncoderDirection> {
        match self.after(a, b) {
            EncoderState::Ticked(direction) if !(self is Ticked) => Some(direction),
            _ => None,
        }
    }

    /// The same state of an encoder whose contacts are swapped.
    pub open spec fn mirror(self) -> EncoderState {
        match self {
            EncoderState::Idle => EncoderState::Idle,
            EncoderState::Ticking(direction) => EncoderState::Ticking(direction.mirror()),
            EncoderState::Ticked(direction) => EncoderState::Ticked(direction.mirror()),
            EncoderState::AmbiguousMovement => EncoderState::AmbiguousMovement,
        }
    }

    /// The state after a run of readings, oldest first.
    pub open spec fn after_all(self, readings: Seq<(bool, bool)>) -> EncoderState
        decreases readings.len(),
    {
        if readings.len() == 0 {
            self
        } else {
            self.after(readings[0].0, readings[0].1).after_all(readings.drop_first())
        }
    }

    /// The pulses that a run of readings emits, oldest first.
    pub open spec fn emitted_by_all(self, readings: Seq<(bool, bool)>) -> Seq<EncoderDirection>
        decreases readings.len(),
    {
        if readings.len() == 0 {
            Seq::empty()
        } else {
            let later = self.after(readings[0].0, readings[0].1).emitted_by_all(
                readings.drop_first(),
            );
            match self.emitted(readings[0].0, readings[0].1) {
                Some(direction) => seq![direction] + later,
                None => later,
            }
        }
    }

    pub fn new() -> (state: EncoderState)
        ensures
            state == EncoderState::Idle,
    {
        EncoderState::Idle
    }

    /// Returns Some(direction) if a pulse should be emitted
    pub fn update(&mut self, a: bool, b: bool) -> (pulse: Option<EncoderDirection>)
        ensures
            *final(self) == old(self).after(a, b),
            pulse == old(self).emitted(a, b),
            (*final(self), pulse) == match (*old(self), a, b) {
                (EncoderState::Idle, true, false) => (
                    EncoderState::Ticking(EncoderDirection::Increment),
                    None,
                ),
                (EncoderState::Idle, false, true) => (
                    EncoderState::Ticking(EncoderDirection::Decrement),
                    None,
                ),
                (EncoderState::Idle, true, true) => (EncoderState::AmbiguousMovement, None),
                (EncoderState::Ticking(_), false, false) => (EncoderState::Idle, None),
                (EncoderState::Ticking(EncoderDirection::Increment), _, true) => (
                    EncoderState::Ticked(EncoderDirection::Increment),
                    Some(EncoderDirection::Increment),
                ),
                (EncoderState::Ticking(EncoderDirection::Decrement), true, _) => (
                    EncoderState::Ticked(EncoderDirection::Decrement),
                    Some(EncoderDirection::Decrement),
                ),
                (EncoderState::Ticked(_), false, false) => (EncoderState::Idle, None),
                (EncoderState::AmbiguousMovement, false, true) => (
                    EncoderState::Ticked(EncoderDirection::Increment),
                    Some(EncoderDirection::Increment),
                ),
                (EncoderState::AmbiguousMovement, true, false) => (
                    EncoderState::Ticked(EncoderDirection::Decrement),
                    Some(EncoderDirection::Decrement),
                ),
                (state, _, _) => (state, None),
            },
    {
        let (new_state, pulse): (EncoderState, Option<EncoderDirection>) = match (*self, a, b) {
            (EncoderState::Idle, true, false) => (
                EncoderState::Ticking(EncoderDirection::Increment),
                None,
            ),
            (EncoderState::Idle, false, true) => (
                EncoderState::Ticking(EncoderDirection::Decrement),
                None,
            ),
            (EncoderState::Idle, true, true) => (EncoderState::AmbiguousMovement, None),
            (EncoderState::Ticking(_), false, false) => (EncoderState::Idle, None),
            (EncoderState::Ticking(EncoderDirection::Increment), _, true) => (
                EncoderState::Ticked(EncoderDirection::Increment),
                Some(EncoderDirection::Increment),
            ),
            (EncoderState::Ticking(EncoderDirection::Decrement), true, _) => (
                EncoderState::Ticked(EncoderDirection::Decrement),
                Some(EncoderDirection::Decrement),
            ),
            (EncoderState::Ticked(_), false, false) => (EncoderState::Idle, None),
            (EncoderState::AmbiguousMovement, false, true) => (
                EncoderState::Ticked(EncoderDirection::Increment),
                Some(EncoderDirection::Increment),
            ),
            (EncoderState::AmbiguousMovement, true, false) => (
                EncoderState::Ticked(EncoderDirection::Decrement),
                Some(EncoderDirection::Decrement),
            ),
            (state, _, _) => (state, None),
        };
        *self = new_state;
        pulse
    }
}

/// A pulse, with the count that it brings its encoder to.
#[derive(Clone, Copy, Debug, PartialEq, Eq, Structural)]
pub struct CountedPulse {
    pub direction: EncoderDirection,
    pub count: i32,
}

impl CountedPulse {
    /// The count of an encoder after a pulse, or after none.
    pub open spec fn count_after(pulse: Option<EncoderDirection>, count: i32) -> int {
        match pulse {
            Some(direction) => count + direction.sign(),
            None => count as int,
        }
    }

    /// Whether the count of an encoder can take a pulse.
    pub open spec fn has_room(pulse: Option<EncoderDirection>, count: i32) -> bool {
        i32::MIN <= Self::count_after(pulse, count) <= i32::MAX
    }

    /// A pulse, if there is one, with the count that it brings its encoder to.
    pub open spec fn of(pulse: Option<EncoderDirection>, count: i32) -> Option<CountedPulse> {
        match pulse {
            Some(direction) => Some(
                CountedPulse { direction, count: Self::count_after(pulse, count) as i32 },
            ),
            None => None,
        }
    }
}

/// Counts one pulse.
pub fn count_step(count: i32, direction: EncoderDirection) -> (stepped: i32)
    requires
        CountedPulse::has_room(Some(direction), count),
    ensures
        stepped == count + direction.sign(),
        direction == EncoderDirection::Increment ==> stepped == count + 1,
        direction == EncoderDirection::Decrement ==> stepped == count - 1,
{
    match direction {
        EncoderDirection::Decrement => count - 1,
        EncoderDirection::Increment => count + 1,
    }
}

/// Tests whether a pulse can be counted.
pub fn can_step(count: i32, direction: EncoderDirection) -> (can: bool)
    ensures
        can == CountedPulse::has_room(Some(direction), count),
        direction == EncoderDirection::Increment ==> can == (count < i32::MAX),
        direction == EncoderDirection::Decrement ==> can == (count > i32::MIN),
{
    match direction {
        EncoderDirection::Decrement => count > i32::MIN,
        EncoderDirection::Increment => count < i32::MAX,
    }
}

/// The readings of one whole detent, turned in `direction` from rest back to rest.
pub open spec fn detent(direction: EncoderDirection) -> Seq<(bool, bool)> {
    match direction {
        EncoderDirection::Increment => seq![
            (true, false),
            (true, true),
            (false, true),
            (false, false),
        ],
        EncoderDirection::Decrement => seq![
            (false, true),
            (true, true),
            (true, false),
            (false, false),
        ],
    }
}

/// Decrementing is incrementing with the contacts swapped.
pub proof fn law_decoding_is_symmetric(state: EncoderState, a: bool, b: bool)
    ensures
        state.mirror().after(b, a) == state.after(a, b).mirror(),
        state.mirror().emitted(b, a) == match state.emitted(a, b) {
            Some(direction) => Some(direction.mirror()),
            None => None,
        },
{
}

/// A reading that repeats the one before it moves nothing and emits nothing, so it does not
/// matter how often the contacts are polled while they rest.
pub proof fn law_repeated_reading_is_silent(state: EncoderState, a: bool, b: bool)
    ensures
        state.after(a, b).after(a, b) == state.after(a, b),
        state.after(a, b).emitted(a, b) is None,
{
}

/// After a pulse no other pulse comes before both contacts have opened.
pub proof fn law_one_pulse_until_released(
    state: EncoderState,
    a: bool,
    b: bool,
    readings: Seq<(bool, bool)>,
)
    requires
        state.emitted(a, b) is Some,
        forall|i: int|
            0 <= i < readings.len() ==> (#[trigger] readings[i]).0 || readings[i].1,
    ensures
        state.after(a, b).emitted_by_all(readings) == Seq::<EncoderDirection>::empty(),
        state.after(a, b).after_all(readings) == state.after(a, b),
{
    lemma_ticked_waits(state.after(a, b)->Ticked_0, readings);
}

proof fn lemma_ticked_waits(direction: EncoderDirection, readings: Seq<(bool, bool)>)
    requires
        forall|i: int|
            0 <= i < readings.len() ==> (#[trigger] readings[i]).0 || readings[i].1,
    ensures
        EncoderState::Ticked(direction).emitted_by_all(readings)
            == Seq::<EncoderDirection>::empty(),
        EncoderState::Ticked(direction).after_all(readings) == EncoderState::Ticked(direction),
    decreases readings.len(),
{
    if readings.len() > 0 {
        let rest = readings.drop_first();
        assert forall|i: int| 0 <= i < rest.len() implies (#[trigger] rest[i]).0 || rest[i].1 by {
            assert(rest[i] == readings[i + 1]);
        }
        lemma_ticked_waits(direction, rest);
    }
}

/// One whole detent from rest emits exactly one pulse, in the direction of the turn, and ends at
/// rest.
pub proof fn law_detent_emits_one_pulse(direction: EncoderDirection)
    ensures
        EncoderState::Idle.emitted_by_all(detent(direction)) == seq![direction],
        EncoderState::Idle.after_all(detent(direction)) == EncoderState::Idle,
{
    reveal_with_fuel(EncoderState::after_all, 5);
    reveal_with_fuel(EncoderState::emitted_by_all, 5);
    let turn = detent(direction);
    let rest1 = turn.drop_first();
    let rest2 = rest1.drop_first();
    let rest3 = rest2.drop_first();
    assert(rest1[0] == turn[1]);
    assert(rest2[0] == turn[2]);
    assert(rest3[0] == turn[3]);
    assert(rest3.drop_first().len() == 0);
    assert(seq![direction] + Seq::<EncoderDirection>::empty() == seq![direction]);
}

/// Increments count up and decrements count down, in what waits and in the count of an encoder.
pub proof fn law_increments_count_up(state: PulseState, count: i32)
    ensures
        EncoderDirection::Increment.sign() == 1,
        EncoderDirection::Decrement.sign() == -1,
        state.net() > 0 <==> state.count > 0 && state.direction == EncoderDirection::Increment,
        state.net() < 0 <==> state.count > 0 && state.direction == EncoderDirection::Decrement,
        state.net() == state.count || state.net() == -(state.count as int),
        CountedPulse::count_after(Some(EncoderDirection::Increment), count) == count + 1,
        CountedPulse::count_after(Some(EncoderDirection::Decrement), count) == count - 1,
        CountedPulse::count_after(None, count) == count,
        count < i32::MAX ==> CountedPulse::of(Some(EncoderDirection::Increment), count) == Some(
            CountedPulse { direction: EncoderDirection::Increment, count: (count + 1) as i32 },
        ),
        count > i32::MIN ==> CountedPulse::of(Some(EncoderDirection::Decrement), count) == Some(
            CountedPulse { direction: EncoderDirection::Decrement, count: (count - 1) as i32 },
        ),
        CountedPulse::of(None, count) is None,
        CountedPulse::has_room(Some(EncoderDirection::Increment), count) <==> count < i32::MAX,
        CountedPulse::has_room(Some(EncoderDirection::Decrement), count) <==> count > i32::MIN,
        CountedPulse::has_room(None, count),
{
}

/// What is pushed is what is taken: a pulse pushed onto nothing is taken next and leaves nothing, a
/// pulse in the waiting direction waits behind, and a pulse against it takes one away.
pub proof fn law_push_and_pop(state: PulseState, direction: EncoderDirection)
    requires
        state.count < usize::MAX,
    ensures
        state.front() is Some <==> state.count > 0,
        state.front() matches Some(next) ==> next == state.direction,
        state.popped().count == if state.count > 0 {
            state.count - 1
        } else {
            0
        },
        state.popped().direction == state.direction,
        state.count == 0 || state.direction == direction ==> state.pushed(direction).direction
            == direction && state.pushed(direction).count == state.count + 1,
        state.count > 0 && state.direction != direction ==> state.pushed(direction)
            == state.popped(),
{
}

/// A pulse is emitted exactly when the encoder arrives in `Ticked`, in the direction that it then
/// shows.
pub proof fn law_pulse_marks_arrival(
    state: EncoderState,
    a: bool,
    b: bool,
    direction: EncoderDirection,
)
    ensures
        state.emitted(a, b) == Some(direction) <==> !(state is Ticked) && state.after(a, b)
            == EncoderState::Ticked(direction),
{
}

/// At rest nothing closed means rest, one contact starts a turn in its own direction, and both at
/// once start a turn of which the direction is open.
pub proof fn law_turn_starts_with_a_contact(a: bool, b: bool)
    ensures
        EncoderState::Idle.emitted(a, b) is None,
        EncoderState::Idle.after(a, b) == EncoderState::Idle <==> !a && !b,
        EncoderState::Idle.after(a, b) == EncoderState::Ticking(EncoderDirection::Increment) <==> a
            && !b,
        EncoderState::Idle.after(a, b) == EncoderState::Ticking(EncoderDirection::Decrement) <==> b
            && !a,
        EncoderState::Idle.after(a, b) == EncoderState::AmbiguousMovement <==> a && b,
{
}

/// A turn that has started ends with a pulse as soon as the other contact closes, is given up when
/// both open, and otherwise goes on. After the pulse the encoder waits for both to open.
pub proof fn law_turn_ends_with_the_other_contact(a: bool, b: bool, direction: EncoderDirection)
    ensures
        ({
            let up = EncoderState::Ticking(EncoderDirection::Increment);
            &&& up.emitted(a, b) == Some(EncoderDirection::Increment) <==> b
            &&& up.emitted(a, b) is None <==> !b
            &&& up.after(a, b) == EncoderState::Idle <==> !a && !b
            &&& up.after(a, b) == up <==> a && !b
        }),
        ({
            let down = EncoderState::Ticking(EncoderDirection::Decrement);
            &&& down.emitted(a, b) == Some(EncoderDirection::Decrement) <==> a
            &&& down.emitted(a, b) is None <==> !a
            &&& down.after(a, b) == EncoderState::Idle <==> !a && !b
            &&& down.after(a, b) == down <==> b && !a
        }),
        ({
            let done = EncoderState::Ticked(direction);
            &&& done.emitted(a, b) is None
            &&& done.after(a, b) == if a || b {
                done
            } else {
                EncoderState::Idle
            }
        }),
{
}

/// A turn that started with both contacts goes in the direction of the contact that stays closed
/// alone: up with B, down with A. Until one does it waits.
pub proof fn law_open_turn_is_decided_by_the_last_contact(a: bool, b: bool)
    ensures
        ({
            let open = EncoderState::AmbiguousMovement;
            &&& open.emitted(a, b) == Some(EncoderDirection::Increment) <==> b && !a
            &&& open.emitted(a, b) == Some(EncoderDirection::Decrement) <==> a && !b
            &&& open.emitted(a, b) is None <==> a == b
            &&& open.after(a, b) == open <==> a == b
        }),
{
}

/// Whichever contact closes first decides the direction of a turn: up if it is A, down if it is B.
/// As long as not both are open, the turn emits one pulse in that direction if the other contact
/// ever closes, and nothing if it does not.
pub proof fn law_first_contact_decides(readings: Seq<(bool, bool)>, a_first: bool)
    requires
        readings.len() > 0,
        readings[0] == (a_first, !a_first),
        forall|i: int| 0 <= i < readings.len() ==> (#[trigger] readings[i]).0 || readings[i].1,
    ensures
        (exists|i: int|
            0 <= i < readings.len() && if a_first {
                (#[trigger] readings[i]).1
            } else {
                readings[i].0
            }) ==> EncoderState::Idle.emitted_by_all(readings) == seq![
            if a_first {
                EncoderDirection::Increment
            } else {
                EncoderDirection::Decrement
            },
        ],
        (forall|i: int|
            0 <= i < readings.len() ==> if a_first {
                !(#[trigger] readings[i]).1
            } else {
                !readings[i].0
            }) ==> EncoderState::Idle.emitted_by_all(readings) == Seq::<EncoderDirection>::empty(),
{
    let rest = readings.drop_first();
    assert forall|i: int| 0 <= i < rest.len() implies (#[trigger] rest[i]).0 || rest[i].1 by {
        assert(rest[i] == readings[i + 1]);
    }
    let direction = if a_first {
        EncoderDirection::Increment
    } else {
        EncoderDirection::Decrement
    };
    lemma_ticking_run(direction, rest);
    if exists|i: int|
        0 <= i < readings.len() && if a_first {
            (#[trigger] readings[i]).1
        } else {
            readings[i].0
        } {
        let i = choose|i: int|
            0 <= i < readings.len() && if a_first {
                (#[trigger] readings[i]).1
            } else {
                readings[i].0
            };
        assert(rest[i - 1] == readings[i]);
        assert(rest[i - 1].0 || rest[i - 1].1);
    } else {
        assert forall|i: int| 0 <= i < rest.len() implies !direction.trailing_contact(
            (#[trigger] rest[i]).0,
            rest[i].1,
        ) by {
            assert(rest[i] == readings[i + 1]);
        }
    }
}

proof fn lemma_ticking_run(direction: EncoderDirection, readings: Seq<(bool, bool)>)
    requires
        forall|i: int| 0 <= i < readings.len() ==> (#[trigger] readings[i]).0 || readings[i].1,
    ensures
        (exists|i: int|
            0 <= i < readings.len() && direction.trailing_contact(
                (#[trigger] readings[i]).0,
                readings[i].1,
            )) ==> EncoderState::Ticking(direction).emitted_by_all(readings) == seq![direction],
        (forall|i: int|
            0 <= i < readings.len() ==> !direction.trailing_contact(
                (#[trigger] readings[i]).0,
                readings[i].1,
            )) ==> EncoderState::Ticking(direction).emitted_by_all(readings)
            == Seq::<EncoderDirection>::empty(),
    decreases readings.len(),
{
    if readings.len() > 0 {
        let rest = readings.drop_first();
        assert forall|i: int| 0 <= i < rest.len() implies (#[trigger] rest[i]).0 || rest[i].1 by {
            assert(rest[i] == readings[i + 1]);
        }
        if direction.trailing_contact(readings[0].0, readings[0].1) {
            lemma_ticked_waits(direction, rest);
            assert(seq![direction] + Seq::<EncoderDirection>::empty() =~= seq![direction]);
        } else {
            lemma_ticking_run(direction, rest);
            assert forall|i: int|
                0 <= i < readings.len() && direction.trailing_contact(
                    (#[trigger] readings[i]).0,
                    readings[i].1,
                ) implies exists|j: int|
                0 <= j < rest.len() && direction.trailing_contact(
                    (#[trigger] rest[j]).0,
                    rest[j].1,
                ) by {
                assert(rest[i - 1] == readings[i]);
            }
            assert forall|j: int| 0 <= j < rest.len() implies (#[trigger] rest[j]) == readings[j
                + 1] by {
            }
        }
    }
}

} // verus!
