use re_ch_rzl_rust::inbox::{music_ready, set_music_ready, supply_chart, take_chart, WebInbox};
use re_ch_rzl_rust::picker::{
    begin_open, is_open, mark_presented, poll_picker, record_cancel, record_pick, take_picked,
    PickerPoll, PickerState,
};
use re_ch_rzl_rust::rng::Xorshift64;

#[test]
fn supplied_chart_is_taken_once() {
    let mut inbox = WebInbox::new();
    assert_eq!(take_chart(&mut inbox), None);
    supply_chart(&mut inbox, vec![1, 2, 3]);
    supply_chart(&mut inbox, vec![4]);
    assert_eq!(take_chart(&mut inbox), Some(vec![4]));
    assert_eq!(take_chart(&mut inbox), None);
}

#[test]
fn music_stays_ready() {
    let mut inbox = WebInbox::new();
    assert!(!music_ready(&inbox));
    set_music_ready(&mut inbox);
    assert!(music_ready(&inbox));
    supply_chart(&mut inbox, vec![0]);
    take_chart(&mut inbox);
    assert!(music_ready(&inbox));
}

#[test]
fn picker_hands_out_the_path_once() {
    let mut p = PickerState::new();
    assert!(!is_open(&p));
    begin_open(&mut p);
    mark_presented(&mut p);
    assert!(is_open(&p));
    record_pick(&mut p, Some("/docs/a.json".to_string()));
    assert!(!is_open(&p));
    assert_eq!(take_picked(&mut p), Some("/docs/a.json".to_string()));
    assert_eq!(take_picked(&mut p), None);
}

#[test]
fn cancel_closes_the_picker() {
    let mut p = PickerState::new();
    mark_presented(&mut p);
    record_cancel(&mut p);
    assert!(!is_open(&p));
    assert_eq!(take_picked(&mut p), None);
    mark_presented(&mut p);
    record_pick(&mut p, None);
    assert!(!is_open(&p));
    assert_eq!(take_picked(&mut p), None);
}

#[test]
fn polling_opens_waits_and_returns() {
    let mut p = PickerState::new();
    assert!(matches!(poll_picker(&mut p), PickerPoll::Open));
    mark_presented(&mut p);
    assert!(matches!(poll_picker(&mut p), PickerPoll::Wait));
    record_pick(&mut p, Some("x.wav".to_string()));
    match poll_picker(&mut p) {
        PickerPoll::Picked(path) => assert_eq!(path, "x.wav"),
        _ => panic!("expected the picked path"),
    }
    assert!(matches!(poll_picker(&mut p), PickerPoll::Open));
}

#[test]
fn xorshift_from_seed_zero() {
    let mut g = Xorshift64::from_seed(0);
    assert_eq!(g.next_bits53(), 528452);
    assert_eq!(g.next_bits53(), 562984862711842);
    assert_eq!(g.next_bits53(), 5457771808805060);
}

#[test]
fn xorshift_default_state() {
    let mut g = Xorshift64::new();
    assert_eq!(g.next_bits53(), 7744336963927657);
}

#[test]
fn xorshift_draws_stay_below_two_to_the_53() {
    let mut g = Xorshift64::from_seed(123456789);
    for _ in 0..1000 {
        assert!(g.next_bits53() < (1u64 << 53));
    }
}
