//! The chord engine: dispatch, accumulation, reset, and emission.

use chordkb::chordkb::{Action, ChordedKeyboard, EXIT_KEY_CODE};
use chordkb::config::{ChordConfig, ConfigDoc};
use chordkb::keys::KeyEvent;

fn names(list: &[&str]) -> Vec<String> {
    list.iter().map(|s| s.to_string()).collect()
}

fn pairs(list: &[(&str, &str)]) -> Vec<(String, String)> {
    list.iter().map(|(a, b)| (a.to_string(), b.to_string())).collect()
}

fn tap(code: u16) -> Vec<KeyEvent> {
    vec![KeyEvent { code, value: 1 }, KeyEvent { code, value: 0 }]
}

/// input.keys = ["A","B"], output.keys = ["A","B"], chords = {"AB": "X"}.
fn ab_engine() -> ChordedKeyboard {
    let doc = ConfigDoc {
        input_keys: names(&["A", "B"]),
        remap: pairs(&[("CAPSLOCK", "ESC")]),
        output_keys: names(&["A", "B"]),
        chords: pairs(&[("AB", "X")]),
    };
    let (config, diags) = ChordConfig::compile(&doc);
    assert!(diags.is_empty());
    ChordedKeyboard::new(config)
}

#[test]
fn two_key_chord_emits_one_tap() {
    let mut kb = ab_engine();
    // Press A, press B, release A, release B: exactly one synthesized
    // press+release pair for X; nothing for A or B directly.
    assert_eq!(kb.handle_event(30, 1), Action::Nothing);
    assert_eq!(kb.handle_event(48, 1), Action::Nothing);
    assert_eq!(kb.handle_event(30, 0), Action::Nothing);
    assert_eq!(kb.handle_event(48, 0), Action::Output(tap(45)));
    assert_eq!(kb.state, 0);
    assert_eq!(kb.chord, 0);
}

#[test]
fn single_key_gesture_uses_the_lone_bit_binding() {
    let mut kb = ab_engine();
    assert_eq!(kb.handle_event(48, 1), Action::Nothing);
    assert_eq!(kb.handle_event(48, 0), Action::Output(tap(48)));
}

#[test]
fn non_overlapping_gestures_resolve_separately() {
    let mut kb = ab_engine();
    // A down, A up: the held mask reaches zero already here, so this
    // resolves as a lone-A gesture, then a lone-B gesture.
    assert_eq!(kb.handle_event(30, 1), Action::Nothing);
    assert_eq!(kb.handle_event(30, 0), Action::Output(tap(30)));
    assert_eq!(kb.handle_event(48, 1), Action::Nothing);
    assert_eq!(kb.handle_event(48, 0), Action::Output(tap(48)));
}

#[test]
fn remapped_key_keeps_its_transition() {
    let mut kb = ab_engine();
    assert_eq!(kb.handle_event(58, 1), Action::Remap(1));
    assert_eq!(kb.handle_event(58, 2), Action::Remap(1));
    assert_eq!(kb.handle_event(58, 0), Action::Remap(1));
    // Remapping never touches chord state.
    assert_eq!(kb.state, 0);
    assert_eq!(kb.chord, 0);
}

#[test]
fn unconfigured_key_passes_through() {
    let mut kb = ab_engine();
    // SPACE is in none of the tables.
    assert_eq!(kb.handle_event(57, 1), Action::PassThrough);
    assert_eq!(kb.handle_event(57, 0), Action::PassThrough);
    assert_eq!(kb.state, 0);
    assert_eq!(kb.chord, 0);
}

#[test]
fn unmatched_combination_is_dropped_and_resets() {
    let doc = ConfigDoc {
        input_keys: names(&["A", "B"]),
        remap: vec![],
        output_keys: vec![],
        chords: vec![],
    };
    let (config, _) = ChordConfig::compile(&doc);
    let mut kb = ChordedKeyboard::new(config);
    assert_eq!(kb.handle_event(30, 1), Action::Nothing);
    assert_eq!(kb.handle_event(48, 1), Action::Nothing);
    assert_eq!(kb.handle_event(30, 0), Action::Nothing);
    // No binding for the combination: nothing is emitted, and the
    // accumulator still resets.
    assert_eq!(kb.handle_event(48, 0), Action::Nothing);
    assert_eq!(kb.chord, 0);
    assert_eq!(kb.state, 0);
}

#[test]
fn rolling_gesture_accumulates_the_full_combination() {
    let mut kb = ab_engine();
    // A down, B down, A up, B up: one lookup for bit(A)|bit(B), even
    // though A was released before B.
    assert_eq!(kb.handle_event(30, 1), Action::Nothing);
    assert_eq!(kb.handle_event(48, 1), Action::Nothing);
    assert_eq!(kb.chord, 3);
    assert_eq!(kb.handle_event(30, 0), Action::Nothing);
    assert_eq!(kb.state, 2);
    assert_eq!(kb.chord, 3);
    assert_eq!(kb.handle_event(48, 0), Action::Output(tap(45)));
}

#[test]
fn key_repeat_does_not_change_chord_state() {
    let mut kb = ab_engine();
    assert_eq!(kb.handle_event(30, 1), Action::Nothing);
    assert_eq!(kb.handle_event(30, 2), Action::Nothing);
    assert_eq!(kb.state, 1);
    assert_eq!(kb.chord, 1);
    assert_eq!(kb.handle_event(30, 0), Action::Output(tap(30)));
}

#[test]
fn accumulator_resets_exactly_on_full_release() {
    let mut kb = ab_engine();
    kb.handle_event(30, 1);
    assert_eq!(kb.chord, 1);
    kb.handle_event(48, 1);
    assert_eq!(kb.chord, 3);
    kb.handle_event(48, 0);
    // One participant still held: the accumulator keeps its bits.
    assert_eq!(kb.state, 1);
    assert_eq!(kb.chord, 3);
    kb.handle_event(30, 0);
    // Held reached zero: the accumulator reset.
    assert_eq!(kb.state, 0);
    assert_eq!(kb.chord, 0);
}

#[test]
fn exit_binding_terminates_instead_of_emitting() {
    let doc = ConfigDoc {
        input_keys: names(&["A"]),
        remap: vec![],
        output_keys: names(&["EXIT"]),
        chords: vec![],
    };
    let (config, _) = ChordConfig::compile(&doc);
    assert_eq!(config.chords.get(&1), Some(&tap(EXIT_KEY_CODE)));
    let mut kb = ChordedKeyboard::new(config);
    assert_eq!(kb.handle_event(30, 1), Action::Nothing);
    assert_eq!(kb.handle_event(30, 0), Action::Exit);
    assert_eq!(kb.chord, 0);
}

#[test]
fn empty_config_passes_everything_through() {
    let mut kb = ChordedKeyboard::new(ChordConfig::new());
    assert_eq!(kb.handle_event(30, 1), Action::PassThrough);
    assert_eq!(kb.handle_event(48, 0), Action::PassThrough);
    assert_eq!(kb.handle_event(174, 1), Action::PassThrough);
}

#[test]
fn participant_priority_beats_remap() {
    // A key that is both a participant and remapped: the participant
    // rule wins.
    let doc = ConfigDoc {
        input_keys: names(&["A"]),
        remap: pairs(&[("A", "ESC")]),
        output_keys: names(&["B"]),
        chords: vec![],
    };
    let (config, _) = ChordConfig::compile(&doc);
    let mut kb = ChordedKeyboard::new(config);
    assert_eq!(kb.handle_event(30, 1), Action::Nothing);
    assert_eq!(kb.handle_event(30, 0), Action::Output(tap(48)));
}
