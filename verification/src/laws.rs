//! The engine's laws: properties of whole gestures — sequences of
//! participant key events run through the chord-update rule from the
//! idle state — and of configuration compilation.

use vstd::prelude::*;
use crate::chordkb::{chord_step, key_bit, engine_step_state, engine_step_action, ActionModel};
use crate::config::{ChordConfig, ConfigDocV, Diag, compiles_to, is_single_bit, loaded_from, toml_doc};
use crate::keys::{KeyEvent, Chord};

verus! {

/// The chord state after running the first `n` events of a gesture
/// through the chord-update rule, starting idle: (held, accumulated).
pub open spec fn run_state(cfg: ChordConfig, evs: Seq<KeyEvent>, n: int) -> (Chord, Chord)
    decreases n,
{
    if n <= 0 {
        (0u64, 0u64)
    } else {
        let s = run_state(cfg, evs, n - 1);
        let st = chord_step(s.0, s.1, key_bit(cfg, evs[n - 1].code), evs[n - 1].value);
        (st.held, st.acc)
    }
}

/// Every combination looked up in the chord table while running the
/// first `n` events of a gesture, in order.
pub open spec fn run_lookups(cfg: ChordConfig, evs: Seq<KeyEvent>, n: int) -> Seq<Chord>
    decreases n,
{
    if n <= 0 {
        Seq::empty()
    } else {
        let l = run_lookups(cfg, evs, n - 1);
        let s = run_state(cfg, evs, n - 1);
        let st = chord_step(s.0, s.1, key_bit(cfg, evs[n - 1].code), evs[n - 1].value);
        match st.lookup {
            Some(m) => l.push(m),
            None => l,
        }
    }
}

/// The mask of participants physically down after the first `n` events.
pub open spec fn down_mask(cfg: ChordConfig, evs: Seq<KeyEvent>, n: int) -> Chord
    decreases n,
{
    if n <= 0 {
        0u64
    } else {
        let m = down_mask(cfg, evs, n - 1);
        let b = key_bit(cfg, evs[n - 1].code);
        if evs[n - 1].value == 1 {
            m | b
        } else if evs[n - 1].value == 0 {
            m & !b
        } else {
            m
        }
    }
}

/// The OR of the bits of every key pressed within the first `n` events.
pub open spec fn gesture_mask(cfg: ChordConfig, evs: Seq<KeyEvent>, n: int) -> Chord
    decreases n,
{
    if n <= 0 {
        0u64
    } else {
        let m = gesture_mask(cfg, evs, n - 1);
        if evs[n - 1].value == 1 {
            m | key_bit(cfg, evs[n - 1].code)
        } else {
            m
        }
    }
}

/// While some participant stays down, the engine state follows the down
/// and gesture masks and no lookup happens.
proof fn lemma_run_no_lookup(cfg: ChordConfig, evs: Seq<KeyEvent>, n: int)
    requires
        0 <= n <= evs.len(),
        forall|i: int| 0 < i <= n ==> down_mask(cfg, evs, i) != 0,
    ensures
        run_state(cfg, evs, n) == (down_mask(cfg, evs, n), gesture_mask(cfg, evs, n)),
        run_lookups(cfg, evs, n) == Seq::<Chord>::empty(),
    decreases n,
{
    if n > 0 {
        lemma_run_no_lookup(cfg, evs, n - 1);
    }
}

/// Law: a gesture of participant key events that keeps at least one
/// participant held until its final event and then has all of them
/// released performs exactly one lookup into the chord table, keyed by
/// the OR of the bits of every key pressed in the gesture — and leaves
/// the engine idle again.
pub proof fn lemma_gesture_single_lookup(cfg: ChordConfig, evs: Seq<KeyEvent>)
    requires
        evs.len() > 0,
        forall|i: int| 0 <= i < evs.len() ==> cfg.keys@.contains_key(#[trigger] evs[i].code),
        forall|i: int| 0 < i < evs.len() ==> down_mask(cfg, evs, i) != 0,
        down_mask(cfg, evs, evs.len() as int) == 0,
    ensures
        run_lookups(cfg, evs, evs.len() as int)
            =~= seq![gesture_mask(cfg, evs, evs.len() as int)],
        run_state(cfg, evs, evs.len() as int) == (0u64, 0u64),
{
    let n = evs.len() as int;
    lemma_run_no_lookup(cfg, evs, n - 1);
}

/// Law: the accumulator resets to zero exactly when the held mask
/// transitions from nonzero to zero. The two premises are the chord
/// state's invariants, which hold of every reachable engine state.
pub proof fn lemma_reset_iff(held: Chord, acc: Chord, bit: Chord, value: i32)
    requires
        held & !acc == 0,
        held == 0 ==> acc == 0,
    ensures
        ({
            let st = chord_step(held, acc, bit, value);
            &&& (held != 0 && st.held == 0) ==> st.acc == 0
            &&& (acc != 0 && st.acc == 0) ==> (held != 0 && st.held == 0)
        }),
{
    assert((acc | bit) == 0 ==> acc == 0) by (bit_vector);
}

/// Law, at the engine's dispatch level: across any one handled event,
/// the accumulator resets exactly when the held mask transitions from
/// nonzero to zero (an event that touches no participant changes
/// neither mask).
pub proof fn lemma_engine_reset_iff(
    cfg: ChordConfig,
    held: Chord,
    acc: Chord,
    key: u16,
    value: i32,
)
    requires
        held & !acc == 0,
        held == 0 ==> acc == 0,
    ensures
        ({
            let (h2, a2) = engine_step_state(cfg, held, acc, key, value);
            &&& (held != 0 && h2 == 0) ==> a2 == 0
            &&& (acc != 0 && a2 == 0) ==> (held != 0 && h2 == 0)
        }),
{
    if cfg.keys@.contains_key(key) {
        lemma_reset_iff(held, acc, key_bit(cfg, key), value);
    }
}

/// Law (rolling gesture): pressing A, pressing B, releasing A, then
/// releasing B — two distinct participants, so at least one stays held
/// until the end — performs exactly one lookup, keyed by
/// bit(A) | bit(B), not two single-key lookups.
pub proof fn lemma_rolling_pair(cfg: ChordConfig, a: u16, b: u16)
    requires
        cfg.wf(),
        cfg.keys@.contains_key(a),
        cfg.keys@.contains_key(b),
        a != b,
    ensures
        ({
            let evs = seq![
                KeyEvent { code: a, value: 1 },
                KeyEvent { code: b, value: 1 },
                KeyEvent { code: a, value: 0 },
                KeyEvent { code: b, value: 0 },
            ];
            &&& run_lookups(cfg, evs, 4) =~= seq![cfg.keys@[a] | cfg.keys@[b]]
            &&& run_state(cfg, evs, 4) == (0u64, 0u64)
        }),
{
    let ba = cfg.keys@[a];
    let bb = cfg.keys@[b];
    assert(is_single_bit(ba));
    assert(is_single_bit(bb));
    let ia = choose|i: u64| i < 64 && ba == (1u64 << i);
    let ib = choose|i: u64| i < 64 && bb == (1u64 << i);
    assert(ba != bb);
    assert(ia != ib);
    assert(((1u64 << ia) | (1u64 << ib)) & !(1u64 << ia) == (1u64 << ib)) by (bit_vector)
        requires
            ia < 64,
            ib < 64,
            ia != ib,
    ;
    assert((1u64 << ia) != 0) by (bit_vector)
        requires
            ia < 64,
    ;
    assert((1u64 << ib) != 0) by (bit_vector)
        requires
            ib < 64,
    ;
    assert((1u64 << ia) | (1u64 << ib) != 0) by (bit_vector)
        requires
            ia < 64,
            ib < 64,
    ;
    assert((1u64 << ib) & !(1u64 << ib) == 0) by (bit_vector);
    let evs = seq![
        KeyEvent { code: a, value: 1 },
        KeyEvent { code: b, value: 1 },
        KeyEvent { code: a, value: 0 },
        KeyEvent { code: b, value: 0 },
    ];
    assert(0u64 | ba == ba) by (bit_vector);
    assert(down_mask(cfg, evs, 0) == 0u64);
    assert(gesture_mask(cfg, evs, 0) == 0u64);
    assert(down_mask(cfg, evs, 1) == ba);
    assert(down_mask(cfg, evs, 2) == (ba | bb));
    assert(down_mask(cfg, evs, 3) == bb);
    assert(down_mask(cfg, evs, 4) == 0u64);
    assert(gesture_mask(cfg, evs, 1) == ba);
    assert(gesture_mask(cfg, evs, 2) == (ba | bb));
    assert(gesture_mask(cfg, evs, 3) == (ba | bb));
    assert(gesture_mask(cfg, evs, 4) == (ba | bb));
    lemma_gesture_single_lookup(cfg, evs);
}

/// Law: when a completed gesture's combination has no binding, nothing
/// is emitted and the accumulator still resets to zero.
pub proof fn lemma_unmatched_combination(
    cfg: ChordConfig,
    held: Chord,
    acc: Chord,
    key: u16,
    value: i32,
)
    requires
        cfg.keys@.contains_key(key),
        ({
            let st = chord_step(held, acc, key_bit(cfg, key), value);
            st.lookup matches Some(m) && !cfg.chords@.contains_key(m)
        }),
    ensures
        engine_step_action(cfg, held, acc, key, value) == ActionModel::Nothing,
        engine_step_state(cfg, held, acc, key, value).1 == 0,
{
}

/// Law: one document compiles to one set of tables — two
/// configurations compiled from the same document are identical.
pub proof fn lemma_compile_deterministic(doc: ConfigDocV, c1: ChordConfig, c2: ChordConfig)
    requires
        compiles_to(doc, c1),
        compiles_to(doc, c2),
    ensures
        c1.keys@ == c2.keys@,
        c1.remaps@ == c2.remaps@,
        c1.chords@.dom() == c2.chords@.dom(),
        forall|m: Chord| #[trigger] c1.chords@.contains_key(m)
            ==> c1.chords@[m]@ == c2.chords@[m]@,
{
}

/// Law: loading one document text twice yields identical tables and
/// identical diagnostics — what a text denotes is a function of the
/// text alone, and compilation is deterministic.
pub proof fn lemma_load_deterministic(
    s: Seq<char>,
    c1: ChordConfig,
    d1: Seq<Diag>,
    c2: ChordConfig,
    d2: Seq<Diag>,
)
    requires
        loaded_from(s, c1, d1),
        loaded_from(s, c2, d2),
    ensures
        c1.keys@ == c2.keys@,
        c1.remaps@ == c2.remaps@,
        c1.chords@.dom() == c2.chords@.dom(),
        forall|m: Chord| #[trigger] c1.chords@.contains_key(m)
            ==> c1.chords@[m]@ == c2.chords@[m]@,
        d1 == d2,
{
    let doc = toml_doc(s).unwrap();
    lemma_compile_deterministic(doc, c1, c2);
}

} // verus!
