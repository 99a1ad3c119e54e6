//! The chord engine: an event-driven state machine that accumulates the
//! currently-held chord-participant keys into a bitmask, tracks every
//! participant touched during the current gesture, and, when all
//! participants are released, resolves the accumulated combination
//! against the chord table.

use vstd::prelude::*;
use crate::config::{ChordConfig, is_single_bit, is_tap};
use crate::keys::{KeyEvent, KeyBind, Chord, single_bind_spec};

verus! {

broadcast use vstd::std_specs::hash::group_hash_axioms;

/// The output key code reserved to mean "terminate the session": a
/// chord bound to it ends the process instead of emitting events.
pub const EXIT_KEY_CODE: u16 = 174;

/// What the engine asks its surroundings to do with one input event.
#[derive(PartialEq, Eq, Debug)]
pub enum Action {
    /// Forward the event unchanged to the output device.
    PassThrough,
    /// Emit the remapped key with the event's own transition value.
    Remap(u16),
    /// Emit this binding on the output device.
    Output(KeyBind),
    /// Nothing to emit (chord state was updated, or the completed
    /// combination had no binding).
    Nothing,
    /// Release the input device and end the session.
    Exit,
}

/// The mathematical view of an engine action.
pub enum ActionModel {
    PassThrough,
    Remap(u16),
    Output(Seq<KeyEvent>),
    Nothing,
    Exit,
}

impl View for Action {
    type V = ActionModel;

    open spec fn view(&self) -> ActionModel {
        match self {
            Action::PassThrough => ActionModel::PassThrough,
            Action::Remap(k) => ActionModel::Remap(*k),
            Action::Output(b) => ActionModel::Output(b@),
            Action::Nothing => ActionModel::Nothing,
            Action::Exit => ActionModel::Exit,
        }
    }
}

/// One transition of the chord state: the new held mask, the new
/// accumulator, and the combination looked up, if the update released
/// the last held participant.
pub struct ChordStep {
    pub held: Chord,
    pub acc: Chord,
    pub lookup: Option<Chord>,
}

/// The chord-update rule for a participant bit: a press sets the bit in
/// both masks, a release clears it from the held mask, any other
/// transition changes neither; when the held mask reaches zero the
/// accumulated combination is looked up and the accumulator resets.
pub open spec fn chord_step(held: Chord, acc: Chord, bit: Chord, value: i32) -> ChordStep {
    let h1 = if value == 1 {
        held | bit
    } else if value == 0 {
        held & !bit
    } else {
        held
    };
    let a1 = if value == 1 {
        acc | bit
    } else {
        acc
    };
    if h1 == 0 {
        ChordStep { held: h1, acc: 0, lookup: Some(a1) }
    } else {
        ChordStep { held: h1, acc: a1, lookup: None }
    }
}

/// The bit assigned to a participant key.
pub open spec fn key_bit(cfg: ChordConfig, key: u16) -> Chord {
    cfg.keys@[key]
}

/// What a chord lookup produces: the bound tap, `Exit` for the reserved
/// session-termination key, nothing for an unbound combination.
pub open spec fn lookup_action(cfg: ChordConfig, lookup: Option<Chord>) -> ActionModel {
    match lookup {
        None => ActionModel::Nothing,
        Some(m) => if cfg.chords@.contains_key(m) {
            if cfg.chords@[m]@[0].code == EXIT_KEY_CODE {
                ActionModel::Exit
            } else {
                ActionModel::Output(cfg.chords@[m]@)
            }
        } else {
            ActionModel::Nothing
        },
    }
}

/// The engine's state after one input event: a participant key runs the
/// chord-update rule; any other key leaves the chord state untouched.
pub open spec fn engine_step_state(
    cfg: ChordConfig,
    held: Chord,
    acc: Chord,
    key: u16,
    value: i32,
) -> (Chord, Chord) {
    if cfg.keys@.contains_key(key) {
        let st = chord_step(held, acc, key_bit(cfg, key), value);
        (st.held, st.acc)
    } else {
        (held, acc)
    }
}

/// The engine's action on one input event, in dispatch priority order:
/// chord participants run the chord-update rule, remapped keys emit the
/// mapped key with the same transition, everything else passes through
/// unchanged.
pub open spec fn engine_step_action(
    cfg: ChordConfig,
    held: Chord,
    acc: Chord,
    key: u16,
    value: i32,
) -> ActionModel {
    if cfg.keys@.contains_key(key) {
        lookup_action(cfg, chord_step(held, acc, key_bit(cfg, key), value).lookup)
    } else if cfg.remaps@.contains_key(key) {
        ActionModel::Remap(cfg.remaps@[key])
    } else {
        ActionModel::PassThrough
    }
}

/// Chord-state well-formedness: the held mask is always contained in
/// the accumulator, and an empty held mask means an empty accumulator.
pub open spec fn state_wf(held: Chord, acc: Chord) -> bool {
    &&& held & !acc == 0
    &&& held == 0 ==> acc == 0
}

/// A mask holds only registered participant bits: every set bit is the
/// bit assigned to some chord-participant key.
pub open spec fn mask_registered(cfg: ChordConfig, m: Chord) -> bool {
    forall|i: u64|
        i < 64 && (#[trigger] ((m >> i) & 1u64)) == 1u64 ==> exists|k: u16|
            #[trigger] cfg.keys@.contains_key(k) && cfg.keys@[k] == (1u64 << i)
}

/// The zero mask holds no bits at all.
proof fn lemma_zero_mask_bits()
    by (bit_vector)
    ensures
        forall|i: u64| i < 64 ==> (#[trigger] ((0u64 >> i) & 1u64)) == 0u64,
{
}

/// Setting a participant's bit keeps a mask registered.
proof fn lemma_or_bit_registered(cfg: ChordConfig, m: Chord, key: u16)
    requires
        cfg.wf(),
        mask_registered(cfg, m),
        cfg.keys@.contains_key(key),
    ensures
        mask_registered(cfg, m | cfg.keys@[key]),
{
    let b = cfg.keys@[key];
    assert(is_single_bit(b));
    let j = choose|j: u64| j < 64 && b == (1u64 << j);
    assert forall|i: u64|
        i < 64 && (#[trigger] (((m | b) >> i) & 1u64)) == 1u64 implies exists|k: u16|
            #[trigger] cfg.keys@.contains_key(k) && cfg.keys@[k] == (1u64 << i) by {
        if ((m >> i) & 1u64) == 1u64 {
            assert(exists|k: u16|
                #[trigger] cfg.keys@.contains_key(k) && cfg.keys@[k] == (1u64 << i));
        } else {
            assert((((m | (1u64 << j)) >> i) & 1u64) == 1u64 && ((m >> i) & 1u64) != 1u64
                ==> i == j) by (bit_vector)
                requires
                    i < 64,
                    j < 64,
            ;
            assert(cfg.keys@.contains_key(key) && cfg.keys@[key] == (1u64 << i));
        }
    }
}

/// The chord-update rule preserves chord-state well-formedness.
proof fn lemma_chord_step_wf(held: Chord, acc: Chord, bit: Chord, value: i32)
    requires
        state_wf(held, acc),
    ensures
        ({
            let st = chord_step(held, acc, bit, value);
            state_wf(st.held, st.acc)
        }),
{
    assert(held & !acc == 0 ==> (held | bit) & !(acc | bit) == 0) by (bit_vector);
    assert(held & !acc == 0 ==> (held & !bit) & !acc == 0) by (bit_vector);
    assert(0u64 & !0u64 == 0) by (bit_vector);
}

/// The chorded keyboard: the compiled configuration and the two mutable
/// chord masks.
pub struct ChordedKeyboard {
    /// The immutable lookup tables.
    pub config: ChordConfig,
    /// Physical state: bits of the participant keys currently held.
    pub state: Chord,
    /// Accumulated chord: every participant bit set since `state` last
    /// became zero; resets when all participants are released.
    pub chord: Chord,
}

impl ChordedKeyboard {
    /// Engine well-formedness: the configuration's and the chord
    /// state's invariants, and the accumulator (which contains the held
    /// mask) holds only registered participant bits.
    pub open spec fn wf(&self) -> bool {
        &&& self.config.wf()
        &&& state_wf(self.state, self.chord)
        &&& mask_registered(self.config, self.chord)
    }

    /// A fresh engine: nothing held, nothing accumulated.
    pub fn new(config: ChordConfig) -> (r: Self)
        ensures
            r.config == config,
            r.state == 0,
            r.chord == 0,
            config.wf() ==> r.wf(),
    {
        proof {
            assert(0u64 & !0u64 == 0) by (bit_vector);
            lemma_zero_mask_bits();
        }
        ChordedKeyboard { config, state: 0, chord: 0 }
    }

    /// Run the chord-update rule for one participant key event and
    /// resolve the combination if this released the last held
    /// participant.
    pub fn update_chord(&mut self, key: u16, value: i32) -> (a: Action)
        requires
            old(self).wf(),
            old(self).config.keys@.contains_key(key),
        ensures
            final(self).wf(),
            final(self).config == old(self).config,
            ({
                let st = chord_step(old(self).state, old(self).chord, key_bit(old(self).config, key), value);
                &&& final(self).state == st.held
                &&& final(self).chord == st.acc
                &&& a@ == lookup_action(old(self).config, st.lookup)
            }),
    {
        proof {
            lemma_chord_step_wf(self.state, self.chord, key_bit(self.config, key), value);
            lemma_or_bit_registered(self.config, self.chord, key);
            lemma_zero_mask_bits();
        }
        let chord_part = *self.config.keys.get(&key).unwrap();
        if value == 1 {
            self.state = self.state | chord_part;
            self.chord = self.chord | chord_part;
        } else if value == 0 {
            self.state = self.state & !chord_part;
        }
        let mut action = Action::Nothing;
        if self.state == 0 {
            match self.config.chords.get(&self.chord) {
                Some(key_bind) => {
                    proof {
                        assert(is_tap(key_bind@));
                        let k = choose|k: u16| key_bind@ == single_bind_spec(k);
                        assert(key_bind@.len() == 2);
                    }
                    if key_bind[0].code == EXIT_KEY_CODE {
                        action = Action::Exit;
                    } else {
                        action = Action::Output(copy_bind(key_bind));
                    }
                },
                None => {},
            }
            self.chord = 0;
        }
        action
    }

    /// Dispatch one input event: participants update the chord state,
    /// remapped keys are rewritten 1:1, every other key passes through
    /// unchanged with its transition intact.
    pub fn handle_event(&mut self, key: u16, value: i32) -> (a: Action)
        requires
            old(self).wf(),
        ensures
            final(self).wf(),
            final(self).config == old(self).config,
            (final(self).state, final(self).chord) == engine_step_state(
                old(self).config, old(self).state, old(self).chord, key, value),
            a@ == engine_step_action(
                old(self).config, old(self).state, old(self).chord, key, value),
    {
        if self.config.keys.contains_key(&key) {
            self.update_chord(key, value)
        } else {
            match self.config.remaps.get(&key) {
                Some(mapped) => Action::Remap(*mapped),
                None => Action::PassThrough,
            }
        }
    }
}

/// Copy an output binding for emission.
fn copy_bind(bind: &KeyBind) -> (r: KeyBind)
    ensures
        r@ == bind@,
{
    let mut r: Vec<KeyEvent> = Vec::new();
    let mut i: usize = 0;
    while i < bind.len()
        invariant
            i <= bind@.len(),
            r@ == bind@.subrange(0, i as int),
        decreases bind@.len() - i,
    {
        r.push(bind[i]);
        proof {
            assert(r@ =~= bind@.subrange(0, i + 1));
        }
        i = i + 1;
    }
    proof {
        assert(r@ =~= bind@);
    }
    r
}

} // verus!
