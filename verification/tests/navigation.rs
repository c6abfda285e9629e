//! The deck registry, the navigation controller, the engine, and
//! position persistence, exercised on concrete decks.

use slide_nav::deck::{Deck, SlideKind};
use slide_nav::engine::Engine;
use slide_nav::fragment::{fragment_for_slide, restore_slide};
use slide_nav::media::{FetchOutcome, ManifestEntry, PaneState};
use slide_nav::nav::{Position, follow_link, has_next, has_previous, link_active, next, previous};
use slide_nav::visibility::{segment_visible, slide_visible};

/// A deck of three slides with segment counts [2, 1, 3].
fn sample_deck() -> Deck {
    let mut deck = Deck::new();
    deck.register_slide(SlideKind::Text);
    deck.register_segment();
    deck.register_segment();
    deck.register_slide(SlideKind::Split);
    deck.register_segment();
    deck.register_slide(SlideKind::Text);
    deck.register_segment();
    deck.register_segment();
    deck.register_segment();
    deck
}

#[test]
fn registration_assigns_dense_indices() {
    let mut deck = Deck::new();
    assert_eq!(deck.slide_count(), 0);
    assert_eq!(deck.register_slide(SlideKind::Text), 0);
    assert_eq!(deck.register_segment(), (0, 0));
    assert_eq!(deck.register_segment(), (0, 1));
    assert_eq!(deck.register_slide(SlideKind::Split), 1);
    assert_eq!(deck.register_segment(), (1, 0));
    assert_eq!(deck.register_slide(SlideKind::Text), 2);
    assert_eq!(deck.register_segment(), (2, 0));
    assert_eq!(deck.slide_count(), 3);
    assert_eq!(deck.segment_count(0), 2);
    assert_eq!(deck.segment_count(1), 1);
    assert_eq!(deck.segment_count(2), 1);
    assert_eq!(deck.kind(1), SlideKind::Split);
}

#[test]
fn well_formedness_requires_a_segment_in_every_slide() {
    let deck = Deck::new();
    assert!(!deck.is_well_formed());

    let mut deck = Deck::new();
    deck.register_slide(SlideKind::Text);
    assert!(!deck.is_well_formed());
    deck.register_segment();
    assert!(deck.is_well_formed());
    deck.register_slide(SlideKind::Text);
    assert!(!deck.is_well_formed());
}

#[test]
fn affordances_vanish_only_at_the_ends() {
    let deck = sample_deck();
    let origin = Position { slide: 0, segment: 0 };
    assert!(!has_previous(&origin));
    assert!(has_next(&deck, &origin));

    let middle = Position { slide: 1, segment: 0 };
    assert!(has_previous(&middle));
    assert!(has_next(&deck, &middle));

    let last = Position { slide: 2, segment: 2 };
    assert!(has_previous(&last));
    assert!(!has_next(&deck, &last));
}

#[test]
fn next_walks_segments_then_slides() {
    let deck = sample_deck();
    let mut pos = Position { slide: 0, segment: 0 };
    pos = next(&deck, &pos);
    assert_eq!(pos, Position { slide: 0, segment: 1 });
    pos = next(&deck, &pos);
    assert_eq!(pos, Position { slide: 1, segment: 0 });
    pos = next(&deck, &pos);
    assert_eq!(pos, Position { slide: 2, segment: 0 });
}

#[test]
fn next_then_previous_round_trips() {
    let deck = sample_deck();
    let starts = [
        Position { slide: 0, segment: 0 },
        Position { slide: 0, segment: 1 },
        Position { slide: 1, segment: 0 },
        Position { slide: 2, segment: 1 },
    ];
    for start in starts {
        let stepped = next(&deck, &start);
        assert!(has_previous(&stepped));
        assert_eq!(previous(&deck, &stepped), start);
    }
}

#[test]
fn consecutive_steps_reach_the_terminal_position() {
    // Six positions in a [2, 1, 3] deck, so five steps to the end.
    let deck = sample_deck();
    let mut pos = Position { slide: 0, segment: 0 };
    for step in 1..=5 {
        assert!(has_next(&deck, &pos), "step {step} should still be allowed");
        pos = next(&deck, &pos);
    }
    assert_eq!(pos, Position { slide: 2, segment: 2 });
    // The forward affordance is gone: one more step is not allowed.
    assert!(!has_next(&deck, &pos));
}

#[test]
fn segment_visibility_is_cumulative() {
    // Cursor at slide 1, segment 1.
    assert!(segment_visible(1, 1, 0, 0));
    assert!(segment_visible(1, 1, 0, 5));
    assert!(segment_visible(1, 1, 1, 0));
    assert!(segment_visible(1, 1, 1, 1));
    assert!(!segment_visible(1, 1, 1, 2));
    assert!(!segment_visible(1, 1, 2, 0));

    assert!(slide_visible(1, 1));
    assert!(!slide_visible(1, 0));
    assert!(!slide_visible(1, 2));
}

#[test]
fn advance_link_is_live_only_on_its_segment() {
    let deck = sample_deck();
    let on_link = Position { slide: 2, segment: 0 };
    assert!(link_active(&on_link, 2, 0));
    assert!(!link_active(&on_link, 2, 1));
    assert_eq!(follow_link(&deck, &on_link, 2, 0), Position { slide: 2, segment: 1 });
    // A link elsewhere leaves the cursor alone.
    assert_eq!(follow_link(&deck, &on_link, 0, 0), on_link);
    // A live link on a slide's last segment is inert.
    let at_end = Position { slide: 1, segment: 0 };
    assert_eq!(follow_link(&deck, &at_end, 1, 0), at_end);
}

#[test]
fn fragment_restores_the_written_slide() {
    assert_eq!(fragment_for_slide(2), "#slide-2");
    assert_eq!(fragment_for_slide(0), "#slide-0");
    assert_eq!(restore_slide("#slide-2", 3), 2);
    assert_eq!(restore_slide(&fragment_for_slide(1), 3), 1);
}

#[test]
fn malformed_or_out_of_range_fragments_fall_back_to_zero() {
    assert_eq!(restore_slide("#slide-99", 3), 0);
    assert_eq!(restore_slide("#garbage", 3), 0);
    assert_eq!(restore_slide("", 3), 0);
    assert_eq!(restore_slide("#slide-", 3), 0);
    assert_eq!(restore_slide("#slide-2x", 3), 0);
    assert_eq!(restore_slide("slide-2", 3), 0);
    assert_eq!(restore_slide("#slide-99999999999999999999999999", 3), 0);
}

#[test]
fn mount_restores_position_and_opens_loading_panes() {
    let engine = Engine::mount(sample_deck(), "#slide-2");
    assert_eq!(engine.current_slide(), 2);
    assert_eq!(engine.current_segment(), 0);
    assert_eq!(engine.slide_count(), 3);
    assert_eq!(engine.segment_count(0), 2);
    for slide in 0..3 {
        assert!(matches!(engine.pane(slide), PaneState::Loading));
    }

    let fallback = Engine::mount(sample_deck(), "#slide-99");
    assert_eq!(fallback.current_slide(), 0);
}

#[test]
fn engine_navigation_moves_the_cursor_only() {
    let mut engine = Engine::mount(sample_deck(), "");
    assert!(!engine.has_previous());
    engine.next();
    assert_eq!((engine.current_slide(), engine.current_segment()), (0, 1));
    engine.next();
    assert_eq!((engine.current_slide(), engine.current_segment()), (1, 0));
    engine.previous();
    assert_eq!((engine.current_slide(), engine.current_segment()), (0, 1));
    assert!(matches!(engine.pane(0), PaneState::Loading));
    assert_eq!(engine.fragment(), "#slide-0");
    assert_eq!(engine.position_label(), "1 / 3");
}

fn manifest(auto_next: bool) -> Vec<ManifestEntry> {
    vec![ManifestEntry { file: "intro.mp4".to_string(), looped: false, auto_next }]
}

#[test]
fn failed_fetch_poisons_one_pane_and_nothing_else() {
    let mut engine = Engine::mount(sample_deck(), "#slide-1");
    engine.apply_fetch(1, FetchOutcome::HttpError);
    assert!(matches!(engine.pane(1), PaneState::Failed));
    assert!(matches!(engine.pane(0), PaneState::Loading));
    assert!(matches!(engine.pane(2), PaneState::Loading));
    assert_eq!((engine.current_slide(), engine.current_segment()), (1, 0));

    // The failure is permanent: a later outcome cannot revive the pane.
    engine.apply_fetch(1, FetchOutcome::Loaded(manifest(false)));
    assert!(matches!(engine.pane(1), PaneState::Failed));

    let mut engine = Engine::mount(sample_deck(), "#slide-1");
    engine.apply_fetch(1, FetchOutcome::ParseError);
    assert!(matches!(engine.pane(1), PaneState::Failed));
}

#[test]
fn loaded_fetch_readies_the_pane() {
    let mut engine = Engine::mount(sample_deck(), "");
    engine.apply_fetch(2, FetchOutcome::Loaded(manifest(true)));
    match engine.pane(2) {
        PaneState::Ready(entries) => {
            assert_eq!(entries.len(), 1);
            assert_eq!(entries[0].file, "intro.mp4");
            assert!(entries[0].auto_next);
        },
        other => panic!("pane should be ready, is {other:?}"),
    }
}

#[test]
fn video_end_advances_only_marked_entries_under_the_cursor() {
    let mut engine = Engine::mount(sample_deck(), "#slide-2");
    engine.apply_fetch(2, FetchOutcome::Loaded(manifest(true)));
    engine.video_ended(2, 0);
    assert_eq!((engine.current_slide(), engine.current_segment()), (2, 1));

    // An entry without the auto-advance mark is ignored.
    let mut engine = Engine::mount(sample_deck(), "#slide-2");
    engine.apply_fetch(2, FetchOutcome::Loaded(manifest(false)));
    engine.video_ended(2, 0);
    assert_eq!((engine.current_slide(), engine.current_segment()), (2, 0));

    // An ending on a slide the cursor is not on is ignored.
    let mut engine = Engine::mount(sample_deck(), "#slide-1");
    engine.apply_fetch(2, FetchOutcome::Loaded(manifest(true)));
    engine.video_ended(2, 0);
    assert_eq!((engine.current_slide(), engine.current_segment()), (1, 0));

    // An ending whose pane never loaded is ignored.
    let mut engine = Engine::mount(sample_deck(), "#slide-2");
    engine.video_ended(2, 0);
    assert_eq!((engine.current_slide(), engine.current_segment()), (2, 0));
}
