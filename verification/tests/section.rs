use hyperion::binary64::Binary64;
use hyperion::dataset::{build, export, is_sampled};
use hyperion::hyperion::{Hyperion, HyperionStates};
use hyperion::sampler::sample;

fn b(value: f64) -> Binary64 {
    Binary64::from_bits(value.to_bits())
}

fn state(index: usize, x: f64) -> Hyperion {
    let t = index as f64 * 0.5;
    Hyperion {
        L: b(0.01),
        ax: b(0.0),
        ay: b(0.0),
        a: b(0.0),
        vx: b(0.0),
        vy: b(1.0),
        v: b(1.0),
        x: b(x),
        y: b(1.0),
        r: b((x * x + 1.0).sqrt()),
        alpha: b(0.0),
        omega: b(10.0 + index as f64),
        theta: b(20.0 + index as f64),
        t: b(t),
    }
}

fn history(xs: &[f64]) -> HyperionStates {
    HyperionStates { states: xs.iter().enumerate().map(|(i, x)| state(i, *x)).collect() }
}

#[test]
fn two_closed_cycles_give_two_peaks() {
    let run = history(&[0.1, 0.5, 0.9, 0.3, -0.2, 0.4, 0.8, -0.1]);
    assert_eq!(sample(&run), vec![2, 6]);
}

#[test]
fn an_open_cycle_gives_no_peak() {
    assert_eq!(sample(&history(&[0.1, 0.5, 0.9, 0.3])), Vec::<usize>::new());
    assert_eq!(sample(&history(&[0.1, 0.5, -0.9, 0.3, 0.7, 0.2])), vec![1]);
    assert_eq!(sample(&history(&[0.1, 0.5, 0.9, 0.3, -0.2, 0.4, 0.8])), vec![2]);
}

#[test]
fn short_histories_have_no_peak() {
    assert_eq!(sample(&history(&[])), Vec::<usize>::new());
    assert_eq!(sample(&history(&[0.7])), Vec::<usize>::new());
    assert_eq!(sample(&history(&[-0.7])), Vec::<usize>::new());
    assert_eq!(sample(&history(&[0.7, -0.7])), vec![0]);
}

#[test]
fn the_first_of_equal_maxima_is_the_peak() {
    assert_eq!(sample(&history(&[0.2, 0.9, 0.9, 0.9, -0.1])), vec![1]);
    assert_eq!(sample(&history(&[0.9, 0.2, 0.9, -0.1, 0.3, 0.3, -1.0])), vec![0, 4]);
}

#[test]
fn a_cycle_opens_only_above_zero_and_closes_only_below() {
    assert_eq!(sample(&history(&[0.0, -0.0, -1.0, 0.0, -2.0])), Vec::<usize>::new());
    assert_eq!(sample(&history(&[1.0, 0.0, -0.0, 0.5, 0.0])), Vec::<usize>::new());
    assert_eq!(sample(&history(&[-1.0, 0.0, 2.0, 0.0, 3.0, -0.0, -1.0, -2.0, 1.0])), vec![4]);
}

#[test]
fn readings_that_are_not_numbers_are_passed_over() {
    let nan = f64::NAN;
    assert_eq!(sample(&history(&[nan, 0.5, nan, 0.7, nan, -0.1, nan])), vec![3]);
    assert_eq!(sample(&history(&[nan, nan, -1.0])), Vec::<usize>::new());
    assert_eq!(sample(&history(&[1.0, f64::INFINITY, 2.0, f64::NEG_INFINITY])), vec![1]);
}

#[test]
fn sampling_twice_gives_the_same_peaks() {
    let run = history(&[0.1, 0.5, 0.9, 0.3, -0.2, 0.4, 0.8, -0.1, 0.6]);
    let first = sample(&run);
    let second = sample(&run);
    assert_eq!(first, second);
    assert_eq!(first, vec![2, 6]);
    assert_eq!(run.states.len(), 9);
}

#[test]
fn peaks_of_a_partial_run_are_the_first_peaks_of_the_whole() {
    let xs = [0.1, 0.5, 0.9, 0.3, -0.2, 0.4, 0.8, -0.1, 0.6, 0.2, -3.0, -1.0, 4.0, -4.0];
    let whole = sample(&history(&xs));
    assert_eq!(whole, vec![2, 6, 8, 12]);
    for n in 0..=xs.len() {
        let part = sample(&history(&xs[..n]));
        assert!(part.len() <= whole.len());
        assert_eq!(part[..], whole[..part.len()]);
    }
}

#[test]
fn peaks_depend_on_x_alone() {
    let xs = [0.1, 0.5, 0.9, 0.3, -0.2, 0.4, 0.8, -0.1];
    let plain = history(&xs);
    let mut altered = history(&xs);
    for (i, entry) in altered.states.iter_mut().enumerate() {
        entry.y = b(-5.0 * i as f64);
        entry.t = b(-1.0);
        entry.theta = b(f64::NAN);
    }
    assert_eq!(sample(&plain), sample(&altered));
}

#[test]
fn membership_is_by_value() {
    let sampled = vec![6, 2, 2];
    assert!(is_sampled(&sampled, 2));
    assert!(is_sampled(&sampled, 6));
    assert!(!is_sampled(&sampled, 0));
    assert!(!is_sampled(&Vec::new(), 0));
}

#[test]
fn dataset_copies_each_state_and_flags_the_section() {
    let xs = [0.1, 0.5, 0.9, 0.3, -0.2, 0.4, 0.8, -0.1];
    let run = history(&xs);
    let sampled = vec![5, 0, 9];
    let records = build(&run, &sampled);
    assert_eq!(records.len(), xs.len());
    for (i, record) in records.iter().enumerate() {
        assert_eq!(record.0, b(i as f64 * 0.5));
        assert_eq!(record.1, b(20.0 + i as f64));
        assert_eq!(record.2, b(10.0 + i as f64));
        assert_eq!(record.3, i == 0 || i == 5);
    }
}

#[test]
fn dataset_copies_encodings_verbatim() {
    let mut run = history(&[1.0, 2.0]);
    run.states[0].t = b(-0.0);
    run.states[0].theta = Binary64::from_bits(0x7FF8_0000_0000_1234);
    run.states[1].omega = b(f64::NEG_INFINITY);
    let records = build(&run, &vec![1]);
    assert_eq!(records[0].0.to_bits(), (-0.0f64).to_bits());
    assert_eq!(records[0].1.to_bits(), 0x7FF8_0000_0000_1234);
    assert_eq!(records[1].2.to_bits(), f64::NEG_INFINITY.to_bits());
    assert_eq!((records[0].3, records[1].3), (false, true));
}

#[test]
fn dataset_of_an_empty_history_is_empty() {
    assert!(build(&history(&[]), &vec![0, 1]).is_empty());
    assert!(export(&history(&[])).is_empty());
    let single = export(&history(&[0.7]));
    assert_eq!(single.len(), 1);
    assert!(!single[0].3);
}

#[test]
fn export_flags_the_peaks_of_the_run() {
    let xs = [0.1, 0.5, 0.9, 0.3, -0.2, 0.4, 0.8, -0.1];
    let run = history(&xs);
    let records = export(&run);
    let flags: Vec<bool> = records.iter().map(|record| record.3).collect();
    assert_eq!(flags, vec![false, false, true, false, false, false, true, false]);
    assert_eq!(records, build(&run, &sample(&run)));
    assert_eq!(records[6].0, b(3.0));
    assert_eq!(records[6].1, b(26.0));
    assert_eq!(records[6].2, b(16.0));
}
