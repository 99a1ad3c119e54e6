//! The configuration compiler: tables, diagnostics, and the load path.

use chordkb::config::{ChordConfig, ConfigDoc, ConfigError, Diag};
use chordkb::keys::KeyEvent;

fn names(list: &[&str]) -> Vec<String> {
    list.iter().map(|s| s.to_string()).collect()
}

fn pairs(list: &[(&str, &str)]) -> Vec<(String, String)> {
    list.iter().map(|(a, b)| (a.to_string(), b.to_string())).collect()
}

fn tap(code: u16) -> Vec<KeyEvent> {
    vec![KeyEvent { code, value: 1 }, KeyEvent { code, value: 0 }]
}

#[test]
fn compiles_participant_bits_in_declaration_order() {
    let doc = ConfigDoc {
        input_keys: names(&["A", "B", "X"]),
        remap: vec![],
        output_keys: vec![],
        chords: vec![],
    };
    let (config, diags) = ChordConfig::compile(&doc);
    assert_eq!(config.keys.get(&30), Some(&1));
    assert_eq!(config.keys.get(&48), Some(&2));
    assert_eq!(config.keys.get(&45), Some(&4));
    assert_eq!(config.keys.len(), 3);
    assert!(diags.is_empty());
}

#[test]
fn unknown_input_key_is_skipped_with_diagnostic() {
    let doc = ConfigDoc {
        input_keys: names(&["A", "NOT_A_REAL_KEY_NAME", "B"]),
        remap: vec![],
        output_keys: vec![],
        chords: vec![],
    };
    let (config, diags) = ChordConfig::compile(&doc);
    // The skipped name still consumes its bit position.
    assert_eq!(config.keys.get(&30), Some(&1));
    assert_eq!(config.keys.get(&48), Some(&4));
    assert_eq!(config.keys.len(), 2);
    assert_eq!(diags, vec![Diag::InputKeyUnknown { index: 1 }]);
}

#[test]
fn duplicate_input_name_keeps_the_last_bit() {
    let doc = ConfigDoc {
        input_keys: names(&["A", "B", "A"]),
        remap: vec![],
        output_keys: vec![],
        chords: vec![],
    };
    let (config, _) = ChordConfig::compile(&doc);
    assert_eq!(config.keys.get(&30), Some(&4));
    assert_eq!(config.keys.get(&48), Some(&2));
}

#[test]
fn remap_entries_resolve_both_sides() {
    let doc = ConfigDoc {
        input_keys: vec![],
        remap: pairs(&[
            ("CAPSLOCK", "ESC"),
            ("A", "NOT_A_REAL_KEY_NAME"),
            ("NOT_A_REAL_KEY_NAME", "B"),
        ]),
        output_keys: vec![],
        chords: vec![],
    };
    let (config, diags) = ChordConfig::compile(&doc);
    assert_eq!(config.remaps.get(&58), Some(&1));
    assert_eq!(config.remaps.len(), 1);
    assert_eq!(
        diags,
        vec![
            Diag::RemapUnknownOutput { index: 1 },
            Diag::RemapUnknownInput { index: 2 },
        ]
    );
}

#[test]
fn output_keys_bind_each_lone_bit() {
    let doc = ConfigDoc {
        input_keys: names(&["A", "B"]),
        remap: vec![],
        output_keys: names(&["X", "SPACE"]),
        chords: vec![],
    };
    let (config, diags) = ChordConfig::compile(&doc);
    assert_eq!(config.chords.get(&1), Some(&tap(45)));
    assert_eq!(config.chords.get(&2), Some(&tap(57)));
    assert_eq!(config.chords.len(), 2);
    assert!(diags.is_empty());
}

#[test]
fn chord_specs_or_component_bits() {
    let doc = ConfigDoc {
        input_keys: names(&["A", "B"]),
        remap: vec![],
        output_keys: names(&["A", "B"]),
        chords: pairs(&[("AB", "X")]),
    };
    let (config, diags) = ChordConfig::compile(&doc);
    assert_eq!(config.chords.get(&3), Some(&tap(45)));
    assert!(diags.is_empty());
}

#[test]
fn unresolvable_component_drops_only_that_binding() {
    let doc = ConfigDoc {
        input_keys: names(&["A", "B"]),
        remap: vec![],
        output_keys: names(&["A", "B"]),
        chords: pairs(&[("A!", "X"), ("AB", "X"), ("AX", "SPACE")]),
    };
    let (config, diags) = ChordConfig::compile(&doc);
    // "A!": '!' is no key name; "AX": X resolves but is no declared
    // output key. Both are dropped; "AB" still compiles.
    assert_eq!(config.chords.get(&3), Some(&tap(45)));
    assert_eq!(config.chords.len(), 3);
    assert_eq!(
        diags,
        vec![
            Diag::ChordUnknownComponent { index: 0 },
            Diag::ChordUnknownComponent { index: 2 },
        ]
    );
}

#[test]
fn unknown_chord_output_key_is_dropped() {
    let doc = ConfigDoc {
        input_keys: names(&["A", "B"]),
        remap: vec![],
        output_keys: names(&["A", "B"]),
        chords: pairs(&[("AB", "NOT_A_REAL_KEY_NAME")]),
    };
    let (config, diags) = ChordConfig::compile(&doc);
    assert_eq!(config.chords.get(&3), None);
    assert_eq!(diags, vec![Diag::ChordUnknownOutput { index: 0 }]);
}

#[test]
fn later_chord_binding_for_same_mask_wins() {
    let doc = ConfigDoc {
        input_keys: names(&["A", "B"]),
        remap: vec![],
        output_keys: names(&["A", "B"]),
        chords: pairs(&[("AB", "X"), ("BA", "SPACE")]),
    };
    let (config, _) = ChordConfig::compile(&doc);
    assert_eq!(config.chords.get(&3), Some(&tap(57)));
}

#[test]
fn load_parses_a_full_document() {
    let text = "[input]\nkeys = [\"A\", \"B\"]\nremap = { CAPSLOCK = \"ESC\" }\n\n[output]\nkeys = [\"A\", \"B\"]\nchords = { AB = \"X\" }\n";
    let (config, diags) = ChordConfig::load(text).unwrap();
    assert_eq!(config.keys.get(&30), Some(&1));
    assert_eq!(config.keys.get(&48), Some(&2));
    assert_eq!(config.remaps.get(&58), Some(&1));
    assert_eq!(config.chords.get(&1), Some(&tap(30)));
    assert_eq!(config.chords.get(&2), Some(&tap(48)));
    assert_eq!(config.chords.get(&3), Some(&tap(45)));
    assert!(diags.is_empty());
}

#[test]
fn loading_the_same_document_twice_is_identical() {
    let text = "[input]\nkeys = [\"A\", \"B\", \"NOT_A_REAL_KEY_NAME\"]\nremap = { CAPSLOCK = \"ESC\" }\n\n[output]\nkeys = [\"A\", \"B\"]\nchords = { AB = \"X\", A = \"SPACE\" }\n";
    let (c1, d1) = ChordConfig::load(text).unwrap();
    let (c2, d2) = ChordConfig::load(text).unwrap();
    assert_eq!(c1.keys, c2.keys);
    assert_eq!(c1.remaps, c2.remaps);
    assert_eq!(c1.chords, c2.chords);
    assert_eq!(d1, d2);
}

#[test]
fn unparseable_document_is_a_fatal_error() {
    let r = ChordConfig::load("not [ valid toml =");
    assert!(matches!(r, Err(ConfigError::Parse(_))));
}

#[test]
fn empty_document_gives_empty_tables() {
    let (config, diags) = ChordConfig::load("").unwrap();
    assert!(config.keys.is_empty());
    assert!(config.remaps.is_empty());
    assert!(config.chords.is_empty());
    assert!(diags.is_empty());
}

#[test]
fn missing_sections_are_empty() {
    let (config, diags) = ChordConfig::load("[input]\nkeys = [\"A\"]\n").unwrap();
    assert_eq!(config.keys.get(&30), Some(&1));
    assert!(config.remaps.is_empty());
    assert!(config.chords.is_empty());
    assert!(diags.is_empty());
}

#[test]
fn too_many_declared_keys_is_a_fatal_error() {
    let mut text = String::from("[input]\nkeys = [");
    for _ in 0..65 {
        text.push_str("\"A\",");
    }
    text.push_str("]\n");
    assert!(matches!(
        ChordConfig::load(&text),
        Err(ConfigError::TooManyKeys)
    ));
}

#[test]
fn non_string_entries_never_resolve() {
    let text = "[input]\nkeys = [\"A\", 7, \"B\"]\nremap = { CAPSLOCK = 3 }\n";
    let (config, diags) = ChordConfig::load(text).unwrap();
    // The non-string element still consumes its bit position.
    assert_eq!(config.keys.get(&30), Some(&1));
    assert_eq!(config.keys.get(&48), Some(&4));
    assert_eq!(config.keys.len(), 2);
    // A remap entry with a non-string value reads as an unresolvable
    // name: skipped, with a diagnostic.
    assert!(config.remaps.is_empty());
    assert_eq!(
        diags,
        vec![
            Diag::InputKeyUnknown { index: 1 },
            Diag::RemapUnknownOutput { index: 0 },
        ]
    );
}

#[test]
fn later_declared_chord_binding_wins_through_load() {
    // Two chord specs denote the same mask; the one declared later in
    // the document wins, whatever the alphabetical order.
    let text = "[input]\nkeys = [\"A\", \"B\"]\n\n[output]\nkeys = [\"A\", \"B\"]\nchords = { BA = \"X\", AB = \"SPACE\" }\n";
    let (config, diags) = ChordConfig::load(text).unwrap();
    assert_eq!(config.chords.get(&3), Some(&tap(57)));
    assert!(diags.is_empty());
}

#[test]
fn chord_mask_ors_component_bits() {
    let mut comp = std::collections::HashMap::new();
    comp.insert(30u16, 1u64);
    comp.insert(48u16, 2u64);
    assert_eq!(chordkb::config::chord_mask(&comp, "AB"), Some(3));
    assert_eq!(chordkb::config::chord_mask(&comp, "BA"), Some(3));
    assert_eq!(chordkb::config::chord_mask(&comp, ""), Some(0));
    // X resolves in the registry but is no declared component.
    assert_eq!(chordkb::config::chord_mask(&comp, "AX"), None);
    // '!' is no key name at all.
    assert_eq!(chordkb::config::chord_mask(&comp, "A!"), None);
}

#[test]
fn new_config_is_empty() {
    let config = ChordConfig::new();
    assert!(config.keys.is_empty());
    assert!(config.remaps.is_empty());
    assert!(config.chords.is_empty());
}
