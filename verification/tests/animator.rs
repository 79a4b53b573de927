use javelin::animator::{is_stop, trembles, STOP_TREMBLING};

fn take(n: usize) -> Vec<(i32, i32)> {
    let mut animator = trembles();
    let mut out = Vec::new();
    for _ in 0..n {
        out.push(animator.next());
    }
    out
}

#[test]
fn first_burst_walks_a_square_of_fifteen() {
    assert_eq!(take(5), vec![(0, 15), (15, 0), (0, -15), (-15, 0), (0, 0)]);
}

#[test]
fn second_burst_uses_the_second_pattern() {
    assert_eq!(take(10)[5..], [(-8, 0), (0, -8), (8, 0), (0, 8), (0, 0)]);
}

#[test]
fn third_and_fourth_bursts_use_the_remaining_patterns() {
    let values = take(20);
    assert_eq!(values[10..15], [(0, 10), (-10, 0), (0, -10), (10, 0), (0, 0)]);
    assert_eq!(values[15..20], [(9, 0), (0, -9), (-9, 0), (0, 9), (0, 0)]);
}

#[test]
fn fifth_burst_returns_to_the_first_pattern() {
    assert_eq!(take(25)[20..], [(0, 16), (16, 0), (0, -16), (-16, 0), (0, 0)]);
}

#[test]
fn last_burst_of_a_round_has_magnitude_seventeen() {
    assert_eq!(take(65)[60..], [(0, 17), (17, 0), (0, -17), (-17, 0), (0, 0)]);
}

#[test]
fn sequence_starts_over_after_sixty_five_values() {
    let values = take(195);
    for n in 0..130 {
        assert_eq!(values[n], values[n + 65]);
    }
    assert_eq!(values[65], (0, 15));
}

#[test]
fn two_generators_yield_the_same_values() {
    assert_eq!(take(300), take(300));
}

#[test]
fn stop_marker_closes_every_burst_and_appears_nowhere_else() {
    for (n, step) in take(650).into_iter().enumerate() {
        assert_eq!(step == STOP_TREMBLING, n % 5 == 4);
        assert_eq!(is_stop(step), n % 5 == 4);
    }
}

#[test]
fn every_burst_is_a_closed_path() {
    for burst in take(650).chunks(5) {
        let dx: i32 = burst.iter().map(|s| s.0).sum();
        let dy: i32 = burst.iter().map(|s| s.1).sum();
        assert_eq!((dx, dy), (0, 0));
    }
}

#[test]
fn magnitudes_come_in_the_fixed_order() {
    let sides: Vec<i32> = take(65).chunks(5).map(|b| b[0].0.abs() + b[0].1.abs()).collect();
    assert_eq!(sides, vec![15, 8, 10, 9, 16, 7, 18, 13, 6, 11, 19, 12, 17]);
}

/// The same sequence, spelled out with iterator adaptors.
fn by_iterators() -> impl Iterator<Item = (i32, i32)> {
    let pattern = (0..4).cycle();
    [15, 8, 10, 9, 16, 7, 18, 13, 6, 11, 19, 12, 17]
        .into_iter()
        .scan(pattern, |pattern, dist| {
            let burst = match pattern.next().unwrap() {
                0 => [(0, dist), (dist, 0), (0, -dist), (-dist, 0), STOP_TREMBLING],
                1 => [(-dist, 0), (0, -dist), (dist, 0), (0, dist), STOP_TREMBLING],
                2 => [(0, dist), (-dist, 0), (0, -dist), (dist, 0), STOP_TREMBLING],
                3 => [(dist, 0), (0, -dist), (-dist, 0), (0, dist), STOP_TREMBLING],
                _ => unreachable!(),
            };
            Some(burst)
        })
        .flat_map(|burst| burst)
        .cycle()
}

#[test]
fn generator_agrees_with_the_sequence_built_from_iterators() {
    let expected: Vec<(i32, i32)> = by_iterators().take(1000).collect();
    assert_eq!(take(1000), expected);
}
