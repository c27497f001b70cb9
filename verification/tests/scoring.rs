use re_ch_rzl_rust::challenge::{active_challenge_theme, transition_base_theme, transition_theme, TransitionPhase};
use re_ch_rzl_rust::color::{
    background_color, default_note_color, effect_color_for_theme, note_color_for_theme, opaque,
    theme_color, Color, Theme,
};
use re_ch_rzl_rust::combo::{calculate_combo, count_hits, hit_sound_for, judge_note, HitSound, NoteHit};

fn c(r: u8, g: u8, b: u8, a: u8) -> Color {
    Color { r, g, b, a }
}

#[test]
fn combo_follows_the_scoring_steps() {
    let expected = [(0, 0), (1, 1), (5, 5), (6, 7), (8, 11), (9, 14), (11, 20), (12, 24), (100, 376)];
    for (hits, combo) in expected {
        assert_eq!(calculate_combo(hits), combo);
    }
}

#[test]
fn combo_is_strictly_increasing_on_small_counts() {
    for n in 0..200 {
        assert!(calculate_combo(n) < calculate_combo(n + 1));
    }
}

#[test]
fn combo_at_the_largest_count() {
    assert_eq!(calculate_combo(536870911), 2147483620);
}

#[test]
fn hits_count_holds_twice() {
    let lines = vec![
        vec![
            NoteHit { note_type: 0, is_hited: true },
            NoteHit { note_type: 2, is_hited: true },
            NoteHit { note_type: 1, is_hited: false },
        ],
        vec![],
        vec![NoteHit { note_type: 1, is_hited: true }, NoteHit { note_type: 2, is_hited: false }],
    ];
    assert_eq!(count_hits(&lines), 4);
    assert_eq!(count_hits(&vec![]), 0);
}

#[test]
fn judging_plays_the_sound_once() {
    let mut note = NoteHit { note_type: 0, is_hited: false };
    assert!(!judge_note(&mut note, false, false));
    assert!(!note.is_hited);
    assert!(judge_note(&mut note, true, false));
    assert!(note.is_hited);
    assert!(!judge_note(&mut note, true, false));
    assert!(!judge_note(&mut note, false, false));
    assert!(!note.is_hited);
    assert!(!judge_note(&mut note, true, true));
    assert!(note.is_hited);
}

#[test]
fn drags_have_their_own_sound() {
    assert_eq!(hit_sound_for(1), HitSound::Drag);
    assert_eq!(hit_sound_for(0), HitSound::Tap);
    assert_eq!(hit_sound_for(2), HitSound::Tap);
    assert_eq!(hit_sound_for(-1), HitSound::Tap);
}

#[test]
fn alpha_defaults_to_opaque() {
    assert_eq!(opaque(), 255);
    assert_eq!(default_note_color(), c(255, 255, 255, 255));
}

fn themes() -> Vec<Theme> {
    vec![
        Theme { colors_list: vec![c(1, 1, 1, 1), c(2, 2, 2, 2), c(3, 3, 3, 3)] },
        Theme { colors_list: vec![c(10, 10, 10, 10), c(20, 20, 20, 20)] },
        Theme { colors_list: vec![] },
    ]
}

#[test]
fn theme_slots_fall_back() {
    let t = themes();
    assert_eq!(theme_color(&t[1], 1, c(9, 9, 9, 9)), c(20, 20, 20, 20));
    assert_eq!(theme_color(&t[1], 2, c(9, 9, 9, 9)), c(9, 9, 9, 9));
    assert_eq!(note_color_for_theme(&t, None), c(2, 2, 2, 2));
    assert_eq!(note_color_for_theme(&t, Some(1)), c(20, 20, 20, 20));
    assert_eq!(note_color_for_theme(&t, Some(7)), c(2, 2, 2, 2));
    assert_eq!(effect_color_for_theme(&t, Some(1)), c(3, 3, 3, 3));
    assert_eq!(effect_color_for_theme(&t, Some(2)), c(3, 3, 3, 3));
    assert_eq!(note_color_for_theme(&vec![], Some(0)), c(255, 255, 255, 255));
    assert_eq!(effect_color_for_theme(&vec![], None), c(255, 255, 255, 255));
    let bare = vec![Theme { colors_list: vec![c(5, 5, 5, 5)] }];
    assert_eq!(note_color_for_theme(&bare, None), c(255, 255, 255, 255));
}

#[test]
fn background_is_opaque_and_black_by_default() {
    let t = themes();
    assert_eq!(background_color(&t, None), c(1, 1, 1, 255));
    assert_eq!(background_color(&t, Some(1)), c(10, 10, 10, 255));
    assert_eq!(background_color(&t, Some(2)), c(0, 0, 0, 255));
    assert_eq!(background_color(&t, Some(3)), c(0, 0, 0, 255));
    assert_eq!(background_color(&vec![], None), c(0, 0, 0, 255));
}

#[test]
fn last_active_challenge_with_a_theme_wins() {
    assert_eq!(active_challenge_theme(&vec![true, false, true], 4), Some(3));
    assert_eq!(active_challenge_theme(&vec![true, false, true], 3), Some(1));
    assert_eq!(active_challenge_theme(&vec![false, false], 5), None);
    assert_eq!(active_challenge_theme(&vec![true], 1), None);
    assert_eq!(active_challenge_theme(&vec![], 3), None);
}

#[test]
fn transitions_pick_the_last_one() {
    let (idle, entering, leaving) = (TransitionPhase::Idle, TransitionPhase::Entering, TransitionPhase::Leaving);
    assert_eq!(transition_theme(&vec![entering, idle, leaving], 4), Some((3, leaving)));
    assert_eq!(transition_theme(&vec![entering, idle, leaving], 3), Some((1, entering)));
    assert_eq!(transition_theme(&vec![idle, idle], 3), None);
    assert_eq!(transition_base_theme(3, true), Some(2));
    assert_eq!(transition_base_theme(3, false), None);
    assert_eq!(transition_base_theme(1, true), None);
}

#[test]
fn checked_count_reports_overflow_free_counts() {
    let lines = vec![vec![NoteHit { note_type: 2, is_hited: true }, NoteHit { note_type: 0, is_hited: true }]];
    assert_eq!(re_ch_rzl_rust::combo::checked_count_hits(&lines), Some(3));
    assert_eq!(re_ch_rzl_rust::combo::checked_count_hits(&vec![]), Some(0));
}
