//! Smoothing of the analog channels and their scaling to the axes of the report.
use vstd::prelude::*;

verus! {

/// The largest sample that the 12-bit converter gives.
pub const ADC_MAX: u16 = 4095;

pub const ADC_FILTER_LENGTH: usize = 4;

/// The axis position of a filtered sample: sixteen counts to a step, with the middle of the
/// 12-bit range at zero. Beyond that range the position wraps around.
pub open spec fn axis_position(input: u16) -> int {
    (input as int / 16) % 256 - 128
}

pub fn map_analog_channel(input: u16) -> (position: i8)
    ensures
        position == axis_position(input),
        position == (input as int / 16) % 256 - 128,
{
    let steps: u16 = input >> 4;
    assert(steps == input / 16 && steps <= 4095) by (bit_vector)
        requires
            steps == input >> 4,
    ;
    let centred: i16 = steps as i16 - 128;
    assert(#[verifier::truncate] (centred as i8) == (steps as int) % 256 - 128) by (bit_vector)
        requires
            steps <= 4095,
            centred == steps - 128,
    ;
    #[verifier::truncate]
    (centred as i8)
}

/// The samples of a window, added up.
pub open spec fn sum_of_samples(window: Seq<u16>) -> int
    decreases window.len(),
{
    if window.len() == 0 {
        0
    } else {
        sum_of_samples(window.drop_last()) + window.last()
    }
}

/// The mean of the last samples, rounded down.
pub open spec fn filtered(window: Seq<u16>) -> int {
    sum_of_samples(window) / ADC_FILTER_LENGTH as int
}

/// The window after one more sample: the oldest leaves.
pub open spec fn shifted(window: Seq<u16>, sample: u16) -> Seq<u16> {
    window.drop_first().push(sample)
}

/// A moving average over the last samples.
pub struct FirFilter {
    samples: [u16; ADC_FILTER_LENGTH],
    head: usize,
}

impl FirFilter {
    #[verifier::type_invariant]
    spec fn well_formed(self) -> bool {
        self.head < ADC_FILTER_LENGTH
    }

    /// The last samples, oldest first.
    pub closed spec fn window(self) -> Seq<u16> {
        Seq::new(
            ADC_FILTER_LENGTH as nat,
            |i: int| self.samples[(self.head + i) % ADC_FILTER_LENGTH as int],
        )
    }

    /// The place that the next sample goes to.
    pub closed spec fn cursor(self) -> int {
        self.head as int
    }

    pub fn new() -> (filter: FirFilter)
        ensures
            filter.window() == seq![0u16, 0u16, 0u16, 0u16],
            filter.cursor() == 0,
    {
        FirFilter { samples: [0;ADC_FILTER_LENGTH], head: 0 }
    }

    /// Takes a sample in and gives the mean of the last samples, this one included.
    pub fn push(&mut self, sample: u16) -> (mean: u16)
        ensures
            final(self).window() == shifted(old(self).window(), sample),
            mean == filtered(final(self).window()),
            final(self).cursor() == (old(self).cursor() + 1) % ADC_FILTER_LENGTH as int,
            old(self).window().len() == 4,
            final(self).window() == seq![
                old(self).window()[1],
                old(self).window()[2],
                old(self).window()[3],
                sample,
            ],
            mean == (old(self).window()[1] + old(self).window()[2] + old(self).window()[3] + sample)
                / 4,
    {
        proof {
            use_type_invariant(&*self);
        }
        let ghost before = self.window();
        self.samples[self.head] = sample;
        self.head = (self.head + 1) % ADC_FILTER_LENGTH;
        proof {
            assert(self.window() =~= shifted(before, sample));
            lemma_sum_of_four(self.window());
        }
        let mut sum: u32 = 0;
        let mut i: usize = 0;
        while i < ADC_FILTER_LENGTH
            invariant
                i <= ADC_FILTER_LENGTH,
                sum <= i * 65535,
                i == 0 ==> sum == 0,
                i == 1 ==> sum == self.samples[0],
                i == 2 ==> sum == self.samples[0] + self.samples[1],
                i == 3 ==> sum == self.samples[0] + self.samples[1] + self.samples[2],
                i == 4 ==> sum == self.samples[0] + self.samples[1] + self.samples[2]
                    + self.samples[3],
            decreases ADC_FILTER_LENGTH - i,
        {
            sum = sum + self.samples[i] as u32;
            i = i + 1;
        }
        (sum / ADC_FILTER_LENGTH as u32) as u16
    }
}

/// The windows of a set of filters.
pub open spec fn windows(filters: Seq<FirFilter>) -> Seq<Seq<u16>> {
    filters.map_values(|filter: FirFilter| filter.window())
}

/// The windows of a set of filters after each took in its sample.
pub open spec fn shifted_each(windows: Seq<Seq<u16>>, samples: Seq<u16>) -> Seq<Seq<u16>> {
    Seq::new(windows.len(), |i: int| shifted(windows[i], samples[i]))
}

/// Takes in one sample of every channel, each into the filter of its own channel.
pub fn filter_round(filters: &mut [FirFilter; 8], samples: [u16; 8]) -> (results: [u16; 8])
    ensures
        windows(final(filters)@) == shifted_each(windows(old(filters)@), samples@),
        forall|i: int|
            0 <= i < 8 ==> #[trigger] final(filters)[i].window() == shifted(
                old(filters)[i].window(),
                samples[i],
            ),
        forall|i: int|
            0 <= i < 8 ==> #[trigger] final(filters)[i].cursor() == (old(filters)[i].cursor() + 1)
                % ADC_FILTER_LENGTH as int,
        forall|i: int| 0 <= i < 8 ==> #[trigger] results[i] == filtered(final(filters)[i].window()),
        forall|i: int|
            0 <= i < 8 ==> #[trigger] results[i] == (old(filters)[i].window()[1] + old(
                filters,
            )[i].window()[2] + old(filters)[i].window()[3] + samples[i]) / 4,
{
    let mut results: [u16; 8] = [0;8];
    let mut i: usize = 0;
    while i < 8
        invariant
            i <= 8,
            forall|j: int|
                0 <= j < i ==> #[trigger] filters[j].window() == shifted(
                    old(filters)[j].window(),
                    samples[j],
                ),
            forall|j: int|
                0 <= j < i ==> #[trigger] filters[j].cursor() == (old(filters)[j].cursor() + 1)
                    % ADC_FILTER_LENGTH as int,
            forall|j: int| 0 <= j < i ==> #[trigger] results[j] == filtered(filters[j].window()),
            forall|j: int|
                0 <= j < i ==> #[trigger] results[j] == (old(filters)[j].window()[1] + old(
                    filters,
                )[j].window()[2] + old(filters)[j].window()[3] + samples[j]) / 4,
            forall|j: int| i <= j < 8 ==> #[trigger] filters[j] == old(filters)[j],
        decreases 8 - i,
    {
        results[i] = filters[i].push(samples[i]);
        i = i + 1;
    }
    assert(windows(filters@) =~= shifted_each(windows(old(filters)@), samples@));
    results
}

/// The window of a filter after a run of samples, oldest first, from the start on.
pub open spec fn window_after(samples: Seq<u16>) -> Seq<u16>
    decreases samples.len(),
{
    if samples.len() == 0 {
        seq![0u16, 0u16, 0u16, 0u16]
    } else {
        shifted(window_after(samples.drop_last()), samples.last())
    }
}

/// The cursor of a filter after a run of samples, from the start on.
pub open spec fn cursor_after(samples: Seq<u16>) -> int
    decreases samples.len(),
{
    if samples.len() == 0 {
        0
    } else {
        (cursor_after(samples.drop_last()) + 1) % ADC_FILTER_LENGTH as int
    }
}

/// Sample `i` of a run. Before the run every sample was zero.
pub open spec fn sample(samples: Seq<u16>, i: int) -> int {
    if 0 <= i < samples.len() {
        samples[i] as int
    } else {
        0
    }
}

proof fn lemma_window_after(samples: Seq<u16>)
    ensures
        window_after(samples).len() == ADC_FILTER_LENGTH,
        forall|i: int|
            0 <= i < ADC_FILTER_LENGTH ==> #[trigger] window_after(samples)[i] == sample(
                samples,
                samples.len() - ADC_FILTER_LENGTH + i,
            ),
        cursor_after(samples) == samples.len() % ADC_FILTER_LENGTH as nat,
    decreases samples.len(),
{
    if samples.len() > 0 {
        let before = samples.drop_last();
        lemma_window_after(before);
        assert forall|i: int| 0 <= i < ADC_FILTER_LENGTH implies #[trigger] window_after(samples)[i]
            == sample(samples, samples.len() - ADC_FILTER_LENGTH + i) by {
            if i < ADC_FILTER_LENGTH - 1 {
                assert(window_after(samples)[i] == window_after(before)[i + 1]);
            }
        }
    }
}

/// The mean of the last four samples of a run, rounded down.
pub open spec fn mean_of_last_four(samples: Seq<u16>) -> int {
    let n = samples.len();
    (sample(samples, n - 1) + sample(samples, n - 2) + sample(samples, n - 3) + sample(
        samples,
        n - 4,
    )) / 4
}

/// After any run of samples the filter gives the mean of the last four, where what came before the
/// run counts as zero, so older samples have no influence. The mean lies in every range that holds
/// the four, and the cursor goes round every four samples.
pub proof fn law_filter_is_mean_of_last_four(samples: Seq<u16>, low: int, high: int)
    ensures
        filtered(window_after(samples)) == mean_of_last_four(samples),
        (forall|j: int|
            samples.len() - 4 <= j < samples.len() ==> low <= #[trigger] sample(samples, j)
                <= high) ==> low <= mean_of_last_four(samples) <= high,
        cursor_after(samples) == samples.len() % 4,
{
    let n = samples.len();
    let window = window_after(samples);
    lemma_window_after(samples);
    lemma_sum_of_four(window);
    assert(window[0] == sample(samples, n - 4));
    assert(window[1] == sample(samples, n - 3));
    assert(window[2] == sample(samples, n - 2));
    assert(window[3] == sample(samples, n - 1));
}

/// The samples of channel `i` in a run of rounds.
pub open spec fn channel(rounds: Seq<Seq<u16>>, i: int) -> Seq<u16> {
    rounds.map_values(|round: Seq<u16>| round[i])
}

/// The windows of the eight filters after a run of rounds, oldest first, from the start on.
pub open spec fn windows_after(rounds: Seq<Seq<u16>>) -> Seq<Seq<u16>>
    decreases rounds.len(),
{
    if rounds.len() == 0 {
        Seq::new(8, |i: int| seq![0u16, 0u16, 0u16, 0u16])
    } else {
        shifted_each(windows_after(rounds.drop_last()), rounds.last())
    }
}

/// After any run of rounds each of the eight channels reads as the mean of its own last four
/// samples, and the samples of the other channels have no influence on it.
pub proof fn law_channels_are_filtered_apart(rounds: Seq<Seq<u16>>, i: int)
    requires
        0 <= i < 8,
    ensures
        windows_after(rounds).len() == 8,
        windows_after(rounds)[i] == window_after(channel(rounds, i)),
        filtered(windows_after(rounds)[i]) == mean_of_last_four(channel(rounds, i)),
    decreases rounds.len(),
{
    if rounds.len() > 0 {
        law_channels_are_filtered_apart(rounds.drop_last(), i);
        assert(channel(rounds, i).drop_last() =~= channel(rounds.drop_last(), i));
    }
    law_filter_is_mean_of_last_four(channel(rounds, i), 0, 0);
}

proof fn lemma_sum_of_four(window: Seq<u16>)
    requires
        window.len() == 4,
    ensures
        sum_of_samples(window) == window[0] + window[1] + window[2] + window[3],
{
    reveal_with_fuel(sum_of_samples, 5);
    let three = window.drop_last();
    let two = three.drop_last();
    let one = two.drop_last();
    assert(one.drop_last().len() == 0);
}

/// Whatever was sampled before, a channel that rests at one value for the length of the filter
/// reads as that value.
pub proof fn law_filter_settles(window: Seq<u16>, value: u16)
    requires
        window.len() == ADC_FILTER_LENGTH,
    ensures
        filtered(shifted(shifted(shifted(shifted(window, value), value), value), value)) == value,
{
    lemma_sum_of_four(shifted(shifted(shifted(shifted(window, value), value), value), value));
}

/// The filter never leaves the range of the samples in its window.
pub proof fn law_filter_stays_in_range(window: Seq<u16>, low: u16, high: u16)
    requires
        window.len() == ADC_FILTER_LENGTH,
        forall|i: int| 0 <= i < window.len() ==> low <= #[trigger] window[i] <= high,
    ensures
        low <= filtered(window) <= high,
{
    lemma_sum_of_four(window);
}

/// Over the range of the converter the axis follows the sample without wrapping: a higher sample
/// never gives a lower position, and the ends of the range are the ends of the axis.
pub proof fn law_axis_follows_sample(lower: u16, higher: u16)
    requires
        lower <= higher <= ADC_MAX,
    ensures
        axis_position(higher) == higher / 16 - 128,
        axis_position(lower) <= axis_position(higher),
        axis_position(0) == i8::MIN,
        axis_position(ADC_MAX) == i8::MAX,
{
}

/// The filter gives the fourth part of the last four samples, rounded down, and nothing that came
/// before them matters.
pub proof fn law_last_four_samples_decide(before: Seq<u16>, s1: u16, s2: u16, s3: u16, s4: u16)
    ensures
        filtered(window_after(before + seq![s1, s2, s3, s4])) == (s1 + s2 + s3 + s4) / 4,
        window_after(before + seq![s1, s2, s3, s4]) == seq![s1, s2, s3, s4],
{
    let samples = before + seq![s1, s2, s3, s4];
    let n = samples.len();
    lemma_window_after(samples);
    lemma_sum_of_four(window_after(samples));
    assert(sample(samples, n - 4) == s1);
    assert(sample(samples, n - 3) == s2);
    assert(sample(samples, n - 2) == s3);
    assert(sample(samples, n - 1) == s4);
    assert(window_after(samples) =~= seq![s1, s2, s3, s4]);
}

/// A filter that has seen fewer than four samples counts the missing ones as zero.
pub proof fn law_filter_starts_from_zero(s1: u16, s2: u16, s3: u16)
    ensures
        filtered(window_after(seq![])) == 0,
        filtered(window_after(seq![s1])) == s1 / 4,
        filtered(window_after(seq![s1, s2])) == (s1 + s2) / 4,
        filtered(window_after(seq![s1, s2, s3])) == (s1 + s2 + s3) / 4,
{
    lemma_window_after(seq![]);
    lemma_window_after(seq![s1]);
    lemma_window_after(seq![s1, s2]);
    lemma_window_after(seq![s1, s2, s3]);
    lemma_sum_of_four(window_after(seq![]));
    lemma_sum_of_four(window_after(seq![s1]));
    lemma_sum_of_four(window_after(seq![s1, s2]));
    lemma_sum_of_four(window_after(seq![s1, s2, s3]));
}

/// The mean of a window of four is the fourth part of its sum, whatever the order of the samples,
/// and a shift drops the oldest sample for the new one.
pub proof fn law_window_of_four(s1: u16, s2: u16, s3: u16, s4: u16, next: u16)
    ensures
        filtered(seq![s1, s2, s3, s4]) == (s1 + s2 + s3 + s4) / 4,
        shifted(seq![s1, s2, s3, s4], next) == seq![s2, s3, s4, next],
{
    lemma_sum_of_four(seq![s1, s2, s3, s4]);
    assert(shifted(seq![s1, s2, s3, s4], next) =~= seq![s2, s3, s4, next]);
}

/// For every sample the axis stands within the range of a signed byte, at the step of the sample
/// counted from the middle, whole turns of 256 steps aside. Within a step it does not move, from
/// step to step it moves up by one until it wraps.
pub proof fn law_axis_counts_steps(input: u16)
    ensures
        -128 <= axis_position(input) <= 127,
        (axis_position(input) - (input / 16 - 128)) % 256 == 0,
        input % 16 != 15 ==> axis_position((input + 1) as u16) == axis_position(input),
        input % 16 == 15 && input < u16::MAX && axis_position(input) < 127 ==> axis_position(
            (input + 1) as u16,
        ) == axis_position(input) + 1,
        input % 16 == 15 && input < u16::MAX && axis_position(input) == 127 ==> axis_position(
            (input + 1) as u16,
        ) == -128,
{
}

} // verus!
