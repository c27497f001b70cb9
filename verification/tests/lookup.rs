use re_ch_rzl_rust::order::stable_order;
use re_ch_rzl_rust::search::{bisect, find_key_point, last_at_or_before, segment_around, KeyHit, Probe};

#[test]
fn bisect_finds_the_boundary() {
    let times = [1, 3, 3, 5, 8];
    for t in 0..10 {
        let (below, above) = bisect(times.len(), |i| times[i] <= t);
        let b = times.iter().filter(|&&x| x <= t).count();
        assert_eq!(below, if b > 0 { Some(b - 1) } else { None });
        assert_eq!(above, if b < times.len() { Some(b) } else { None });
    }
    assert_eq!(bisect(0, |_| true), (None, None));
}

#[test]
fn last_point_defaults_to_the_last() {
    let times = [2, 4, 6];
    assert_eq!(last_at_or_before(3, |i| times[i] <= 5), 1);
    assert_eq!(last_at_or_before(3, |i| times[i] <= 9), 2);
    assert_eq!(last_at_or_before(3, |i| times[i] <= 1), 2);
    assert_eq!(last_at_or_before(3, |i| times[i] <= 2), 0);
}

#[test]
fn segments_fall_back_at_the_ends() {
    let times = [2, 4, 6];
    assert_eq!(segment_around(3, |i| times[i] <= 5), (1, 2));
    assert_eq!(segment_around(3, |i| times[i] <= 1), (0, 0));
    assert_eq!(segment_around(3, |i| times[i] <= 7), (2, 2));
    assert_eq!(segment_around(0, |_| true), (0, 0));
    assert_eq!(segment_around(1, |_| false), (0, 0));
}

fn probe(times: &[i32], t: i32, i: usize) -> Probe {
    if times[i] == t {
        Probe::Exact
    } else if times[i] < t {
        Probe::Before
    } else {
        Probe::After
    }
}

#[test]
fn key_points_are_found_or_bracketed() {
    let times = [0, 10, 20, 30];
    assert_eq!(find_key_point(4, |i| probe(&times, 20, i)), KeyHit::Exact(2));
    assert_eq!(find_key_point(4, |i| probe(&times, 15, i)), KeyHit::Between(1, 2));
    assert_eq!(find_key_point(4, |i| probe(&times, 25, i)), KeyHit::Between(2, 3));
    assert_eq!(find_key_point(4, |i| probe(&times, -5, i)), KeyHit::Outside);
    assert_eq!(find_key_point(4, |i| probe(&times, 35, i)), KeyHit::Outside);
    assert_eq!(find_key_point(0, |_| Probe::Exact), KeyHit::Outside);
}

#[test]
fn sorting_is_stable() {
    assert_eq!(stable_order(&vec![5, 1, 5, 0, 1]), vec![3, 1, 4, 0, 2]);
    assert_eq!(stable_order(&vec![]), Vec::<usize>::new());
    assert_eq!(stable_order(&vec![7, 7, 7]), vec![0, 1, 2]);
}

#[test]
fn sorted_data_keeps_its_order() {
    let keys = vec![1, 2, 2, 9, 10];
    assert_eq!(stable_order(&keys), vec![0, 1, 2, 3, 4]);
}

#[test]
fn sorting_agrees_with_std_stable_sort() {
    let keys: Vec<u64> = vec![9, 3, 3, 8, 0, 9, 1, 3, 2, 8, 8, 0];
    let mut expected: Vec<usize> = (0..keys.len()).collect();
    expected.sort_by_key(|&i| keys[i]);
    assert_eq!(stable_order(&keys), expected);
}

#[test]
fn bisect_on_unordered_answers_follows_its_probes() {
    // Probes 1 (true), then 2 (false): ends between them.
    assert_eq!(bisect(4, |i| i == 1), (Some(1), Some(2)));
    // Probes 2 (false), 0 (true), 1 (false).
    assert_eq!(bisect(5, |i| i == 0 || i == 3), (Some(0), Some(1)));
    assert_eq!(last_at_or_before(5, |i| i == 0 || i == 3), 0);
    assert_eq!(segment_around(5, |i| i == 0 || i == 3), (0, 1));
}

#[test]
fn equal_key_points_give_the_first_probed() {
    let times = [5, 5, 5, 5, 5];
    // The first probe is the middle one.
    assert_eq!(find_key_point(5, |i| probe(&times, 5, i)), KeyHit::Exact(2));
    let times = [1, 5, 5, 9];
    // Probes 1 first (rounding down), which is already at the time.
    assert_eq!(find_key_point(4, |i| probe(&times, 5, i)), KeyHit::Exact(1));
}
