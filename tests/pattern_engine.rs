use synth_tools::{
    pattern_abs_adjust, pattern_abs_from_step, pattern_abs_sort, pattern_length, pattern_make_abs,
    pattern_test, test_synth_tools_rs_add1, time_offset, PatternAbs, PatternError, PatternStep,
    MAX_PATTERN_SIZE,
};

fn step(event: u32, delay: u16) -> PatternStep {
    PatternStep { event, delay, next: 0 }
}

fn abs(event: u32, time: u16) -> PatternAbs {
    PatternAbs { event, time }
}

fn wrap(position: u16, offset: i16, len: u16) -> u16 {
    (((position as i32 + offset as i32) % len as i32 + len as i32) % len as i32) as u16
}

fn example_steps() -> Vec<PatternStep> {
    vec![step(1, 4), step(2, 2), step(3, 0)]
}

fn by_key(v: &[PatternAbs]) -> Vec<(u16, u32)> {
    let mut keys: Vec<(u16, u32)> = v.iter().map(|a| (a.time, a.event)).collect();
    keys.sort();
    keys
}

fn is_time_ordered(v: &[PatternAbs]) -> bool {
    v.windows(2).all(|w| w[0].time <= w[1].time)
}

#[test]
fn convert_example_pattern() {
    let steps = example_steps();
    let pa = pattern_abs_from_step(&steps).unwrap();
    assert_eq!(pa.as_slice(), &[abs(1, 0), abs(2, 4), abs(3, 6)]);
    assert_eq!(pattern_length(&steps), 6);
}

#[test]
fn convert_empty_pattern() {
    let pa = pattern_abs_from_step(&[]).unwrap();
    assert!(pa.is_empty());
}

#[test]
fn convert_times_are_prefix_sums() {
    let steps: Vec<PatternStep> = (0..MAX_PATTERN_SIZE as u32).map(|i| step(i + 100, (i % 5) as u16)).collect();
    let pa = pattern_abs_from_step(&steps).unwrap();
    assert_eq!(pa.len(), steps.len());
    assert_eq!(pa[0].time, 0);
    let mut expected: u16 = 0;
    for (s, a) in steps.iter().zip(pa.iter()) {
        assert_eq!(a.event, s.event);
        assert_eq!(a.time, expected);
        expected += s.delay;
    }
    assert_eq!(pattern_length(&steps), expected);
}

#[test]
fn convert_over_capacity_fails() {
    let steps: Vec<PatternStep> = (0..MAX_PATTERN_SIZE as u32 + 1).map(|i| step(i, 1)).collect();
    assert_eq!(pattern_abs_from_step(&steps), Err(PatternError::CapacityExceeded));
}

#[test]
fn convert_largest_total_length() {
    let steps = vec![step(1, 65000), step(2, 535)];
    let pa = pattern_abs_from_step(&steps).unwrap();
    assert_eq!(pa.as_slice(), &[abs(1, 0), abs(2, 65000)]);
    assert_eq!(pattern_length(&steps), u16::MAX);
}

#[test]
fn in_place_conversion_agrees_with_copy() {
    let mut steps = vec![PatternStep { event: 1, delay: 4, next: 1 }, PatternStep { event: 2, delay: 2, next: 2 }, PatternStep { event: 3, delay: 0, next: 0 }];
    let copied = pattern_abs_from_step(&steps).unwrap();
    pattern_make_abs(&mut steps);
    assert_eq!(
        steps,
        vec![PatternStep { event: 1, delay: 0, next: 1 }, PatternStep { event: 2, delay: 4, next: 2 }, PatternStep { event: 3, delay: 6, next: 0 }]
    );
    for (s, a) in steps.iter().zip(copied.iter()) {
        assert_eq!(s.delay, a.time);
        assert_eq!(s.event, a.event);
    }
}

#[test]
fn in_place_conversion_of_nothing() {
    let mut steps: Vec<PatternStep> = Vec::new();
    pattern_make_abs(&mut steps);
    assert!(steps.is_empty());
}

#[test]
fn time_offset_examples() {
    assert_eq!(time_offset(4, 3, 6), 1);
    assert_eq!(time_offset(0, -1, 6), 5);
}

#[test]
fn time_offset_zero_is_identity() {
    for len in 1..40u16 {
        for p in 0..len {
            assert_eq!(time_offset(p, 0, len), p);
        }
    }
}

#[test]
fn time_offset_whole_cycles_are_identity() {
    for len in 1..40u16 {
        for p in 0..len {
            assert_eq!(time_offset(p, len as i16, len), p);
            for k in -5i32..=5 {
                assert_eq!(time_offset(p, (k * len as i32) as i16, len), p);
            }
        }
    }
}

#[test]
fn time_offset_stays_on_axis() {
    let offsets = [i16::MIN, -1000, -7, -1, 0, 1, 7, 1000, i16::MAX];
    for &len in &[1u16, 2, 6, 7, 100, 40000, u16::MAX] {
        for &p in &[0u16, 1, 5, 99, 39999, 65534] {
            for &o in &offsets {
                let r = time_offset(p, o, len);
                assert!(r < len);
                assert_eq!(r as i64, (p as i64 + o as i64).rem_euclid(len as i64));
            }
        }
    }
}

#[test]
fn time_offset_large_position() {
    assert_eq!(time_offset(40000, -1, 50000), 39999);
    assert_eq!(time_offset(65534, 5, u16::MAX), 4);
}

#[test]
fn adjust_then_sort_example() {
    let steps = example_steps();
    let shifted = pattern_abs_adjust(&steps, -2).unwrap();
    let expected: Vec<PatternAbs> = vec![abs(1, wrap(0, -2, 6)), abs(2, wrap(4, -2, 6)), abs(3, wrap(6, -2, 6))];
    assert_eq!(shifted.as_slice(), expected.as_slice());
    assert_eq!(shifted.as_slice(), &[abs(1, 4), abs(2, 2), abs(3, 4)]);
    let mut buf: Vec<PatternAbs> = shifted.iter().copied().collect();
    assert_eq!(pattern_abs_sort(&mut buf), Ok(()));
    assert!(is_time_ordered(&buf));
    assert_eq!(by_key(&buf), by_key(&expected));
    assert_eq!(buf[0], abs(2, 2));
    let times: Vec<u16> = buf.iter().map(|a| a.time).collect();
    assert_eq!(times, vec![2, 4, 4]);
}

#[test]
fn adjust_by_zero_keeps_positions() {
    let steps = vec![step(5, 3), step(6, 1), step(7, 2)];
    let shifted = pattern_abs_adjust(&steps, 0).unwrap();
    assert_eq!(shifted.as_slice(), &[abs(5, 0), abs(6, 3), abs(7, 4)]);
}

#[test]
fn adjust_forward_wraps() {
    let steps = vec![step(5, 3), step(6, 1), step(7, 2)];
    let shifted = pattern_abs_adjust(&steps, 3).unwrap();
    assert_eq!(shifted.as_slice(), &[abs(5, 3), abs(6, 0), abs(7, 1)]);
}

#[test]
fn adjust_zero_length_fails() {
    assert_eq!(pattern_abs_adjust(&[step(1, 0)], 1), Err(PatternError::ZeroLength));
    assert_eq!(pattern_abs_adjust(&[], 1), Err(PatternError::ZeroLength));
}

#[test]
fn adjust_over_capacity_fails() {
    let steps: Vec<PatternStep> = (0..MAX_PATTERN_SIZE as u32 + 1).map(|i| step(i, 1)).collect();
    assert_eq!(pattern_abs_adjust(&steps, 1), Err(PatternError::CapacityExceeded));
}

#[test]
fn single_tick_pattern_round_trips() {
    let steps = vec![step(42, 1)];
    let plain = pattern_abs_from_step(&steps).unwrap();
    for &o in &[i16::MIN, -3, -1, 0, 1, 2, 17, i16::MAX] {
        let shifted = pattern_abs_adjust(&steps, o).unwrap();
        assert_eq!(shifted.as_slice(), plain.as_slice());
        assert_eq!(shifted.as_slice(), &[abs(42, 0)]);
    }
}

#[test]
fn sort_orders_by_time() {
    let mut buf = vec![abs(1, 9), abs(2, 3), abs(3, 7), abs(4, 0), abs(5, 3)];
    let before = by_key(&buf);
    assert_eq!(pattern_abs_sort(&mut buf), Ok(()));
    assert!(is_time_ordered(&buf));
    assert_eq!(by_key(&buf), before);
    let times: Vec<u16> = buf.iter().map(|a| a.time).collect();
    assert_eq!(times, vec![0, 3, 3, 7, 9]);
}

#[test]
fn sort_every_length_up_to_capacity() {
    for n in 0..=MAX_PATTERN_SIZE {
        let mut buf: Vec<PatternAbs> = (0..n as u32).map(|i| abs(i, ((i * 37 + 11) % 23) as u16)).collect();
        let before = by_key(&buf);
        assert_eq!(pattern_abs_sort(&mut buf), Ok(()));
        assert_eq!(buf.len(), n);
        assert!(is_time_ordered(&buf));
        assert_eq!(by_key(&buf), before);
    }
}

#[test]
fn sort_twice_keeps_times() {
    let mut buf = vec![abs(1, 5), abs(2, 1), abs(3, 5), abs(4, 2)];
    pattern_abs_sort(&mut buf).unwrap();
    let once: Vec<u16> = buf.iter().map(|a| a.time).collect();
    pattern_abs_sort(&mut buf).unwrap();
    let twice: Vec<u16> = buf.iter().map(|a| a.time).collect();
    assert_eq!(once, twice);
}

#[test]
fn sort_equal_times_keeps_records() {
    let mut buf = vec![abs(3, 4), abs(1, 4), abs(2, 4)];
    assert_eq!(pattern_abs_sort(&mut buf), Ok(()));
    assert!(buf.iter().all(|a| a.time == 4));
    assert_eq!(by_key(&buf), vec![(4, 1), (4, 2), (4, 3)]);
}

#[test]
fn sort_over_capacity_fails_untouched() {
    let mut buf: Vec<PatternAbs> = (0..MAX_PATTERN_SIZE as u32 + 1).map(|i| abs(i, (100 - i) as u16)).collect();
    let copy = buf.clone();
    assert_eq!(pattern_abs_sort(&mut buf), Err(PatternError::CapacityExceeded));
    assert_eq!(buf, copy);
}

#[test]
fn pattern_test_sets_first_delays() {
    let mut steps = vec![step(1, 9), step(2, 9), step(3, 9)];
    pattern_test(&mut steps);
    assert_eq!(steps, vec![step(1, 1), step(2, 2), step(3, 9)]);
    let mut one = vec![step(7, 0)];
    pattern_test(&mut one);
    assert_eq!(one, vec![step(7, 1)]);
    let mut none: Vec<PatternStep> = Vec::new();
    pattern_test(&mut none);
    assert!(none.is_empty());
}

#[test]
fn add1_adds_one() {
    assert_eq!(test_synth_tools_rs_add1(0), 1);
    assert_eq!(test_synth_tools_rs_add1(41), 42);
    assert_eq!(test_synth_tools_rs_add1(u32::MAX - 1), u32::MAX);
}
