use flightpanel::analog::{
    filter_round, map_analog_channel, FirFilter, ADC_FILTER_LENGTH, ADC_MAX,
};

#[test]
fn axis_positions() {
    assert_eq!(map_analog_channel(0), -128);
    assert_eq!(map_analog_channel(15), -128);
    assert_eq!(map_analog_channel(16), -127);
    assert_eq!(map_analog_channel(2047), -1);
    assert_eq!(map_analog_channel(2048), 0);
    assert_eq!(map_analog_channel(ADC_MAX), 127);
}

#[test]
fn axis_wraps_beyond_the_converter() {
    assert_eq!(map_analog_channel(4096), -128);
    assert_eq!(map_analog_channel(u16::MAX), 127);
}

#[test]
fn axis_follows_the_sample() {
    let mut last = i8::MIN;
    for sample in 0..=ADC_MAX {
        let position = map_analog_channel(sample);
        assert!(position >= last);
        last = position;
    }
}

#[test]
fn filter_fills_up_from_zero() {
    let mut filter = FirFilter::new();
    assert_eq!(filter.push(4000), 1000);
    assert_eq!(filter.push(4000), 2000);
    assert_eq!(filter.push(4000), 3000);
    assert_eq!(filter.push(4000), 4000);
    assert_eq!(filter.push(4000), 4000);
}

#[test]
fn filter_rounds_down_and_forgets() {
    let mut filter = FirFilter::new();
    filter.push(1);
    filter.push(2);
    filter.push(3);
    assert_eq!(filter.push(5), 2);
    assert_eq!(filter.push(100), 27);
    assert_eq!(filter.push(u16::MAX), 16410);
}

#[test]
fn filter_settles_and_stays_in_range() {
    let mut filter = FirFilter::new();
    for sample in [4095, 0, 17, 3000, 2] {
        filter.push(sample);
    }
    let mut mean = 0;
    for _ in 0..ADC_FILTER_LENGTH {
        mean = filter.push(1234);
        assert!(mean <= 3000);
    }
    assert_eq!(mean, 1234);
}

#[test]
fn filter_of_largest_samples() {
    let mut filter = FirFilter::new();
    let mut mean = 0;
    for _ in 0..4 {
        mean = filter.push(u16::MAX);
    }
    assert_eq!(mean, u16::MAX);
}

#[test]
fn filter_is_the_mean_of_the_last_four() {
    let samples = [7, 4095, 0, 12, 3001, 3002, 65535, 1, 1, 1, 1, 9];
    let mut filter = FirFilter::new();
    for n in 0..samples.len() {
        let last = &samples[n.saturating_sub(3)..=n];
        let sum: u32 = last.iter().map(|&sample| sample as u32).sum();
        assert_eq!(filter.push(samples[n]) as u32, sum / 4);
    }
}

#[test]
fn channels_are_filtered_apart() {
    let mut filters = [(); 8].map(|_| FirFilter::new());
    let first = [0, 4, 8, 12, 16, 20, 24, 4095];
    assert_eq!(filter_round(&mut filters, first), [0, 1, 2, 3, 4, 5, 6, 1023]);
    let second = [400, 0, 0, 0, 0, 0, 0, 4095];
    assert_eq!(filter_round(&mut filters, second), [100, 1, 2, 3, 4, 5, 6, 2047]);
    for _ in 0..3 {
        filter_round(&mut filters, [8; 8]);
    }
    assert_eq!(filter_round(&mut filters, [8; 8]), [8; 8]);
}
