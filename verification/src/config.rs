//! The configuration compiler: turns a declarative document (four
//! sections: participant keys, remaps, output keys, chord bindings)
//! into the engine's three immutable lookup tables, validating every
//! key name against the key registry. Unknown names and unresolvable
//! chord components skip the single offending entry with a diagnostic;
//! compilation continues.

use vstd::prelude::*;
use std::collections::HashMap;
use crate::keys::{KeyEvent, KeyBind, Chord, single_bind, single_bind_spec, resolve_spec, name_to_key, resolve_char};

verus! {

broadcast use vstd::std_specs::hash::group_hash_axioms;

/// The declarative configuration document, reduced to plain values:
/// the four sections in declaration order.
pub struct ConfigDoc {
    /// Ordered chord-participant key names; index fixes the bit position.
    pub input_keys: Vec<String>,
    /// Physical key name to output key name, for keys rewritten 1:1.
    pub remap: Vec<(String, String)>,
    /// Ordered output key names, one per input bit position.
    pub output_keys: Vec<String>,
    /// Chord-spec string (component characters) to output key name.
    pub chords: Vec<(String, String)>,
}

/// The mathematical view of a configuration document.
pub struct ConfigDocV {
    pub input_keys: Seq<Seq<char>>,
    pub remap: Seq<(Seq<char>, Seq<char>)>,
    pub output_keys: Seq<Seq<char>>,
    pub chords: Seq<(Seq<char>, Seq<char>)>,
}

impl View for ConfigDoc {
    type V = ConfigDocV;

    open spec fn view(&self) -> ConfigDocV {
        ConfigDocV {
            input_keys: self.input_keys.deep_view(),
            remap: self.remap.deep_view(),
            output_keys: self.output_keys.deep_view(),
            chords: self.chords.deep_view(),
        }
    }
}

/// A recoverable configuration diagnostic: the single offending entry,
/// by its index in its section, that was skipped.
#[derive(Clone, Copy, PartialEq, Eq, Structural, Debug)]
pub enum Diag {
    /// `input_keys[index]` is not a known key name.
    InputKeyUnknown { index: usize },
    /// The output side of `remap[index]` is not a known key name.
    RemapUnknownOutput { index: usize },
    /// The input side of `remap[index]` is not a known key name.
    RemapUnknownInput { index: usize },
    /// `output_keys[index]` is not a known key name.
    OutputKeyUnknown { index: usize },
    /// The output side of `chords[index]` is not a known key name.
    ChordUnknownOutput { index: usize },
    /// A component of the chord-spec string of `chords[index]` does not
    /// resolve to a declared output key.
    ChordUnknownComponent { index: usize },
}

/// A fatal configuration load error.
#[derive(PartialEq, Eq, Debug)]
pub enum ConfigError {
    /// The document is not parseable; carries the parser's message.
    Parse(String),
    /// More participant or output keys are declared than the chord
    /// mask has bits for.
    TooManyKeys,
}

/// The participant table built from the first `n` input key names:
/// resolvable name at index `i` maps its key code to bit `1 << i`;
/// unknown names are skipped; duplicates keep the last bit.
pub open spec fn keys_table(names: Seq<Seq<char>>, n: int) -> Map<u16, Chord>
    decreases n,
{
    if n <= 0 {
        Map::empty()
    } else {
        let m = keys_table(names, n - 1);
        match resolve_spec(names[n - 1]) {
            Some(k) => m.insert(k, 1u64 << ((n - 1) as u64)),
            None => m,
        }
    }
}

/// The diagnostics of the input-key section: one per unknown name.
pub open spec fn input_key_diags(names: Seq<Seq<char>>, n: int) -> Seq<Diag>
    decreases n,
{
    if n <= 0 {
        Seq::empty()
    } else {
        let d = input_key_diags(names, n - 1);
        match resolve_spec(names[n - 1]) {
            Some(_) => d,
            None => d.push(Diag::InputKeyUnknown { index: (n - 1) as usize }),
        }
    }
}

/// The remap table built from the first `n` entries: both sides must
/// resolve; a failing entry is skipped; duplicates keep the last target.
pub open spec fn remap_table(entries: Seq<(Seq<char>, Seq<char>)>, n: int) -> Map<u16, u16>
    decreases n,
{
    if n <= 0 {
        Map::empty()
    } else {
        let m = remap_table(entries, n - 1);
        match resolve_spec(entries[n - 1].1) {
            None => m,
            Some(out) => match resolve_spec(entries[n - 1].0) {
                None => m,
                Some(inn) => m.insert(inn, out),
            },
        }
    }
}

/// The diagnostics of the remap section: the output side is checked
/// first, then the input side.
pub open spec fn remap_diags(entries: Seq<(Seq<char>, Seq<char>)>, n: int) -> Seq<Diag>
    decreases n,
{
    if n <= 0 {
        Seq::empty()
    } else {
        let d = remap_diags(entries, n - 1);
        match resolve_spec(entries[n - 1].1) {
            None => d.push(Diag::RemapUnknownOutput { index: (n - 1) as usize }),
            Some(_) => match resolve_spec(entries[n - 1].0) {
                None => d.push(Diag::RemapUnknownInput { index: (n - 1) as usize }),
                Some(_) => d,
            },
        }
    }
}

/// The single-key chord bindings built from the first `n` output key
/// names: the lone bit `1 << i` is bound to the output key at index `i`.
pub open spec fn single_chord_table(names: Seq<Seq<char>>, n: int) -> Map<Chord, u16>
    decreases n,
{
    if n <= 0 {
        Map::empty()
    } else {
        let m = single_chord_table(names, n - 1);
        match resolve_spec(names[n - 1]) {
            Some(k) => m.insert(1u64 << ((n - 1) as u64), k),
            None => m,
        }
    }
}

/// The component table built from the first `n` output key names: the
/// output key's code maps back to its bit, for interpreting multi-key
/// chord-spec strings.
pub open spec fn component_table(names: Seq<Seq<char>>, n: int) -> Map<u16, Chord>
    decreases n,
{
    if n <= 0 {
        Map::empty()
    } else {
        let m = component_table(names, n - 1);
        match resolve_spec(names[n - 1]) {
            Some(k) => m.insert(k, 1u64 << ((n - 1) as u64)),
            None => m,
        }
    }
}

/// The diagnostics of the output-key section: one per unknown name.
pub open spec fn output_key_diags(names: Seq<Seq<char>>, n: int) -> Seq<Diag>
    decreases n,
{
    if n <= 0 {
        Seq::empty()
    } else {
        let d = output_key_diags(names, n - 1);
        match resolve_spec(names[n - 1]) {
            Some(_) => d,
            None => d.push(Diag::OutputKeyUnknown { index: (n - 1) as usize }),
        }
    }
}

/// The mask denoted by the first `n` components of a chord-spec string:
/// the OR of each component's bit, or `None` if any component fails to
/// resolve to a declared output key.
pub open spec fn chord_mask_spec(comp: Map<u16, Chord>, s: Seq<char>, n: int) -> Option<Chord>
    decreases n,
{
    if n <= 0 {
        Some(0u64)
    } else {
        match chord_mask_spec(comp, s, n - 1) {
            None => None,
            Some(m) => match resolve_spec(seq![s[n - 1]]) {
                None => None,
                Some(k) => if comp.contains_key(k) {
                    Some(m | comp[k])
                } else {
                    None
                },
            },
        }
    }
}

/// The full chord table: the single-key bindings, then the first `n`
/// declared chord bindings, each keyed by its OR-combined mask;
/// later bindings for the same mask overwrite earlier ones.
pub open spec fn full_chord_table(
    comp: Map<u16, Chord>,
    singles: Map<Chord, u16>,
    entries: Seq<(Seq<char>, Seq<char>)>,
    n: int,
) -> Map<Chord, u16>
    decreases n,
{
    if n <= 0 {
        singles
    } else {
        let m = full_chord_table(comp, singles, entries, n - 1);
        match resolve_spec(entries[n - 1].1) {
            None => m,
            Some(out) => match chord_mask_spec(comp, entries[n - 1].0, entries[n - 1].0.len() as int) {
                None => m,
                Some(mask) => m.insert(mask, out),
            },
        }
    }
}

/// The diagnostics of the chord section: the output side is checked
/// first, then the components.
pub open spec fn chord_diags(
    comp: Map<u16, Chord>,
    entries: Seq<(Seq<char>, Seq<char>)>,
    n: int,
) -> Seq<Diag>
    decreases n,
{
    if n <= 0 {
        Seq::empty()
    } else {
        let d = chord_diags(comp, entries, n - 1);
        match resolve_spec(entries[n - 1].1) {
            None => d.push(Diag::ChordUnknownOutput { index: (n - 1) as usize }),
            Some(_) => match chord_mask_spec(comp, entries[n - 1].0, entries[n - 1].0.len() as int) {
                None => d.push(Diag::ChordUnknownComponent { index: (n - 1) as usize }),
                Some(_) => d,
            },
        }
    }
}

/// A mask with exactly one bit set.
pub open spec fn is_single_bit(b: Chord) -> bool {
    exists|i: u64| i < 64 && b == (1u64 << i)
}

/// A binding that is the tap of some single output key.
pub open spec fn is_tap(s: Seq<KeyEvent>) -> bool {
    exists|k: u16| s == single_bind_spec(k)
}

/// The three lookup tables the chord engine runs on, immutable once
/// compiled.
pub struct ChordConfig {
    /// Chord participant key code to its singleton bit mask.
    pub keys: HashMap<u16, Chord>,
    /// Physical key code to remapped output key code.
    pub remaps: HashMap<u16, u16>,
    /// Completed chord mask to the output binding to emit.
    pub chords: HashMap<Chord, KeyBind>,
}

impl ChordConfig {
    /// Well-formedness: every participant mask is a distinct single
    /// bit, and every chord binding is the tap of one output key.
    pub open spec fn wf(&self) -> bool {
        &&& forall|k: u16| #[trigger] self.keys@.contains_key(k) ==> is_single_bit(self.keys@[k])
        &&& forall|k1: u16, k2: u16|
            #[trigger] self.keys@.contains_key(k1) && #[trigger] self.keys@.contains_key(k2)
                && k1 != k2 ==> self.keys@[k1] != self.keys@[k2]
        &&& forall|m: Chord| #[trigger] self.chords@.contains_key(m) ==> is_tap(self.chords@[m]@)
    }

    /// The empty configuration: every key passes through unchanged.
    pub fn new() -> (r: Self)
        ensures
            r.keys@ == Map::<u16, Chord>::empty(),
            r.remaps@ == Map::<u16, u16>::empty(),
            r.chords@ =~= Map::<Chord, KeyBind>::empty(),
            r.wf(),
    {
        let r = ChordConfig {
            keys: HashMap::new(),
            remaps: HashMap::new(),
            chords: HashMap::new(),
        };
        proof {
            assert(r.keys@ =~= Map::<u16, Chord>::empty());
            assert(r.remaps@ =~= Map::<u16, u16>::empty());
        }
        r
    }
}

/// What a compiled configuration holds of its document: the participant
/// and remap tables are exactly the section folds, and the chord table
/// binds exactly the masks of the fold, each to the tap of its output
/// key.
pub open spec fn compiles_to(doc: ConfigDocV, c: ChordConfig) -> bool {
    let comp = component_table(doc.output_keys, doc.output_keys.len() as int);
    let singles = single_chord_table(doc.output_keys, doc.output_keys.len() as int);
    let table = full_chord_table(comp, singles, doc.chords, doc.chords.len() as int);
    &&& c.keys@ == keys_table(doc.input_keys, doc.input_keys.len() as int)
    &&& c.remaps@ == remap_table(doc.remap, doc.remap.len() as int)
    &&& c.chords@.dom() == table.dom()
    &&& forall|m: Chord| #[trigger] table.contains_key(m) ==> c.chords@[m]@ == single_bind_spec(table[m])
}

/// The diagnostics of compiling a document, in section order.
pub open spec fn compile_diags(doc: ConfigDocV) -> Seq<Diag> {
    let comp = component_table(doc.output_keys, doc.output_keys.len() as int);
    input_key_diags(doc.input_keys, doc.input_keys.len() as int)
        + remap_diags(doc.remap, doc.remap.len() as int)
        + output_key_diags(doc.output_keys, doc.output_keys.len() as int)
        + chord_diags(comp, doc.chords, doc.chords.len() as int)
}

/// Two distinct bit positions give distinct singleton masks.
proof fn lemma_pow2_neq(i: u64, j: u64)
    by (bit_vector)
    requires
        i < 64,
        j < 64,
        i != j,
    ensures
        (1u64 << i) != (1u64 << j),
{
}

/// Once a chord-spec prefix fails to resolve, the whole string fails.
proof fn lemma_chord_mask_none(comp: Map<u16, Chord>, s: Seq<char>, i: int, n: int)
    requires
        chord_mask_spec(comp, s, i) is None,
        0 <= i <= n,
    ensures
        chord_mask_spec(comp, s, n) is None,
    decreases n - i,
{
    if i < n {
        lemma_chord_mask_none(comp, s, i, n - 1);
    }
}

/// The OR of the components of a chord-spec string, computed left to
/// right.
pub fn chord_mask(comp: &HashMap<u16, Chord>, s: &str) -> (r: Option<Chord>)
    ensures
        r == chord_mask_spec(comp@, s@, s@.len() as int),
{
    let n = s.unicode_len();
    let mut mask: u64 = 0;
    let mut j: usize = 0;
    while j < n
        invariant
            j <= n,
            n == s@.len(),
            chord_mask_spec(comp@, s@, j as int) == Some(mask),
        decreases n - j,
    {
        let c = s.get_char(j);
        let resolved = resolve_char(c);
        match resolved {
            None => {
                proof {
                    assert(chord_mask_spec(comp@, s@, j + 1) is None);
                    lemma_chord_mask_none(comp@, s@, j + 1, s@.len() as int);
                }
                return None;
            },
            Some(k) => {
                match comp.get(&k) {
                    None => {
                        proof {
                            assert(chord_mask_spec(comp@, s@, j + 1) is None);
                            lemma_chord_mask_none(comp@, s@, j + 1, s@.len() as int);
                        }
                        return None;
                    },
                    Some(b) => {
                        mask = mask | *b;
                    },
                }
            },
        }
        j = j + 1;
    }
    Some(mask)
}

impl ChordConfig {
    /// Compile a document into the engine's lookup tables, skipping
    /// each unresolvable entry with a diagnostic.
    pub fn compile(doc: &ConfigDoc) -> (r: (ChordConfig, Vec<Diag>))
        requires
            doc@.input_keys.len() <= 64,
            doc@.output_keys.len() <= 64,
        ensures
            compiles_to(doc@, r.0),
            r.1@ == compile_diags(doc@),
            r.0.wf(),
    {
        let mut keys: HashMap<u16, Chord> = HashMap::new();
        let mut remaps: HashMap<u16, u16> = HashMap::new();
        let mut chords: HashMap<Chord, KeyBind> = HashMap::new();
        let mut components: HashMap<u16, Chord> = HashMap::new();
        let mut diags: Vec<Diag> = Vec::new();

        let ghost dv = doc@;

        // Participant keys: declaration order fixes each bit position.
        let n_in = doc.input_keys.len();
        let mut i: usize = 0;
        proof {
            assert(keys@ =~= keys_table(dv.input_keys, 0));
        }
        while i < n_in
            invariant
                i <= n_in,
                n_in == dv.input_keys.len(),
                n_in <= 64,
                dv == doc@,
                keys@ == keys_table(dv.input_keys, i as int),
                diags@ == input_key_diags(dv.input_keys, i as int),
                forall|k: u16| #[trigger] keys@.contains_key(k)
                    ==> exists|j: u64| j < i && keys@[k] == (1u64 << j),
                forall|k1: u16, k2: u16|
                    #[trigger] keys@.contains_key(k1) && #[trigger] keys@.contains_key(k2)
                        && k1 != k2 ==> keys@[k1] != keys@[k2],
            decreases n_in - i,
        {
            proof {
                assert(dv.input_keys[i as int] == doc.input_keys@[i as int]@);
            }
            let resolved = name_to_key(doc.input_keys[i].as_str());
            match resolved {
                Some(key) => {
                    let ghost old_keys = keys@;
                    keys.insert(key, 1u64 << (i as u64));
                    proof {
                        assert forall|k1: u16, k2: u16|
                            #[trigger] keys@.contains_key(k1) && #[trigger] keys@.contains_key(k2)
                                && k1 != k2 implies keys@[k1] != keys@[k2] by {
                            if k1 == key || k2 == key {
                                let kx = if k1 == key { k2 } else { k1 };
                                assert(old_keys.contains_key(kx));
                                let j = choose|j: u64| j < i && old_keys[kx] == (1u64 << j);
                                lemma_pow2_neq(i as u64, j);
                            }
                        }
                    }
                },
                None => {
                    diags.push(Diag::InputKeyUnknown { index: i });
                },
            }
            i = i + 1;
        }
        let ghost in_diags = diags@;

        // Remaps: both sides must resolve; output side checked first.
        let n_rm = doc.remap.len();
        let mut i: usize = 0;
        proof {
            assert(remaps@ =~= remap_table(dv.remap, 0));
        }
        while i < n_rm
            invariant
                i <= n_rm,
                n_rm == dv.remap.len(),
                dv == doc@,
                remaps@ == remap_table(dv.remap, i as int),
                diags@ == in_diags + remap_diags(dv.remap, i as int),
                in_diags == input_key_diags(dv.input_keys, dv.input_keys.len() as int),
            decreases n_rm - i,
        {
            proof {
                assert(dv.remap[i as int] == (doc.remap@[i as int].0@, doc.remap@[i as int].1@));
            }
            let out_resolved = name_to_key(doc.remap[i].1.as_str());
            match out_resolved {
                None => {
                    diags.push(Diag::RemapUnknownOutput { index: i });
                },
                Some(out_key) => {
                    let in_resolved = name_to_key(doc.remap[i].0.as_str());
                    match in_resolved {
                        None => {
                            diags.push(Diag::RemapUnknownInput { index: i });
                        },
                        Some(in_key) => {
                            remaps.insert(in_key, out_key);
                        },
                    }
                },
            }
            i = i + 1;
        }
        let ghost rm_diags = diags@;

        // Output keys: each bit's single-key binding, and the component
        // table that interprets multi-key chord-spec strings.
        let n_out = doc.output_keys.len();
        let mut i: usize = 0;
        proof {
            assert(chords@.dom() =~= single_chord_table(dv.output_keys, 0).dom());
            assert(components@ =~= component_table(dv.output_keys, 0));
        }
        while i < n_out
            invariant
                i <= n_out,
                n_out == dv.output_keys.len(),
                n_out <= 64,
                dv == doc@,
                components@ == component_table(dv.output_keys, i as int),
                chords@.dom() == single_chord_table(dv.output_keys, i as int).dom(),
                forall|m: Chord| #[trigger] single_chord_table(dv.output_keys, i as int).contains_key(m)
                    ==> chords@[m]@ == single_bind_spec(single_chord_table(dv.output_keys, i as int)[m]),
                diags@ == rm_diags + output_key_diags(dv.output_keys, i as int),
                rm_diags == input_key_diags(dv.input_keys, dv.input_keys.len() as int)
                    + remap_diags(dv.remap, dv.remap.len() as int),
            decreases n_out - i,
        {
            proof {
                assert(dv.output_keys[i as int] == doc.output_keys@[i as int]@);
            }
            let resolved = name_to_key(doc.output_keys[i].as_str());
            match resolved {
                Some(key) => {
                    chords.insert(1u64 << (i as u64), single_bind(key));
                    proof {
                        assert(chords@.dom() =~= single_chord_table(dv.output_keys, i + 1).dom());
                    }
                    components.insert(key, 1u64 << (i as u64));
                },
                None => {
                    diags.push(Diag::OutputKeyUnknown { index: i });
                },
            }
            i = i + 1;
        }
        let ghost out_diags = diags@;
        let ghost comp = component_table(dv.output_keys, dv.output_keys.len() as int);
        let ghost singles = single_chord_table(dv.output_keys, dv.output_keys.len() as int);

        // Declared chords: OR the component bits; the mask takes the
        // binding, last declaration winning.
        let n_ch = doc.chords.len();
        let mut i: usize = 0;
        while i < n_ch
            invariant
                i <= n_ch,
                n_ch == dv.chords.len(),
                dv == doc@,
                components@ == comp,
                comp == component_table(dv.output_keys, dv.output_keys.len() as int),
                singles == single_chord_table(dv.output_keys, dv.output_keys.len() as int),
                chords@.dom() == full_chord_table(comp, singles, dv.chords, i as int).dom(),
                forall|m: Chord| #[trigger] full_chord_table(comp, singles, dv.chords, i as int).contains_key(m)
                    ==> chords@[m]@ == single_bind_spec(full_chord_table(comp, singles, dv.chords, i as int)[m]),
                diags@ == out_diags + chord_diags(comp, dv.chords, i as int),
                out_diags == input_key_diags(dv.input_keys, dv.input_keys.len() as int)
                    + remap_diags(dv.remap, dv.remap.len() as int)
                    + output_key_diags(dv.output_keys, dv.output_keys.len() as int),
            decreases n_ch - i,
        {
            proof {
                assert(dv.chords[i as int] == (doc.chords@[i as int].0@, doc.chords@[i as int].1@));
            }
            let out_resolved = name_to_key(doc.chords[i].1.as_str());
            match out_resolved {
                None => {
                    diags.push(Diag::ChordUnknownOutput { index: i });
                },
                Some(out_key) => {
                    let mask = chord_mask(&components, doc.chords[i].0.as_str());
                    match mask {
                        None => {
                            diags.push(Diag::ChordUnknownComponent { index: i });
                        },
                        Some(m) => {
                            chords.insert(m, single_bind(out_key));
                            proof {
                                assert(chords@.dom() =~= full_chord_table(comp, singles, dv.chords, i + 1).dom());
                            }
                        },
                    }
                },
            }
            i = i + 1;
        }

        let config = ChordConfig { keys, remaps, chords };
        proof {
            assert(diags@ =~= compile_diags(dv));
            assert forall|k: u16| #[trigger] config.keys@.contains_key(k)
                implies is_single_bit(config.keys@[k]) by {
                let j = choose|j: u64| j < n_in && config.keys@[k] == (1u64 << j);
                assert(j < 64 && config.keys@[k] == (1u64 << j));
            }
            assert forall|m: Chord| #[trigger] config.chords@.contains_key(m)
                implies is_tap(config.chords@[m]@) by {
                let table = full_chord_table(comp, singles, dv.chords, dv.chords.len() as int);
                assert(table.contains_key(m));
                assert(config.chords@[m]@ == single_bind_spec(table[m]));
            }
        }
        (config, diags)
    }
}

#[verifier::external_type_specification]
#[verifier::external_body]
pub struct ExTomlValue(toml::Value);

/// What the name array under `sec.field` of a parsed document value
/// holds: each element in declaration order, a non-string element as
/// the empty (never-resolving) name, so that it still consumes its bit
/// position; empty when the section or field is missing or no array.
pub uninterp spec fn names_in(v: toml::Value, sec: Seq<char>, field: Seq<char>) -> Seq<Seq<char>>;

/// What the table under `sec.field` of a parsed document value holds:
/// each key with its string value, in declaration order, a non-string
/// value as the empty (never-resolving) name; empty when the section
/// or field is missing or no table.
pub uninterp spec fn pairs_in(v: toml::Value, sec: Seq<char>, field: Seq<char>) -> Seq<(Seq<char>, Seq<char>)>;

/// The four sections of a parsed document value, as plain values.
pub open spec fn doc_sections(v: toml::Value) -> ConfigDocV {
    ConfigDocV {
        input_keys: names_in(v, seq!['i', 'n', 'p', 'u', 't'], seq!['k', 'e', 'y', 's']),
        remap: pairs_in(v, seq!['i', 'n', 'p', 'u', 't'], seq!['r', 'e', 'm', 'a', 'p']),
        output_keys: names_in(v, seq!['o', 'u', 't', 'p', 'u', 't'], seq!['k', 'e', 'y', 's']),
        chords: pairs_in(v, seq!['o', 'u', 't', 'p', 'u', 't'], seq!['c', 'h', 'o', 'r', 'd', 's']),
    }
}

/// What a document text denotes: the sections of the value it parses
/// to, or `None` for text that is no parseable document. Parsing is a
/// function of the text alone.
pub uninterp spec fn toml_doc(s: Seq<char>) -> Option<ConfigDocV>;

/// Relies on `str::parse::<toml::Value>` (toml's `FromStr` for
/// `Value`): parsing is deterministic in the text and succeeds exactly
/// on valid TOML; the parse error is rendered to its message.
#[verifier::external_body]
fn toml_parse(s: &str) -> (r: Result<toml::Value, String>)
    ensures
        r matches Ok(v) ==> toml_doc(s@) == Some(doc_sections(v)),
        r matches Err(_) ==> toml_doc(s@) is None,
{
    match s.parse::<toml::Value>() {
        Ok(v) => Ok(v),
        Err(e) => Err(e.to_string()),
    }
}

/// Relies on `toml::Value::get`, `as_array` and `as_str`: reads one
/// name-array section of the document value, one name per element in
/// declaration order (the table type keeps insertion order); the
/// result depends on the value alone.
#[verifier::external_body]
fn read_names(v: &toml::Value, sec: &str, field: &str) -> (r: Vec<String>)
    ensures
        r.deep_view() == names_in(*v, sec@, field@),
{
    let mut out = Vec::new();
    if let Some(arr) = v.get(sec).and_then(|s| s.get(field)).and_then(|f| f.as_array()) {
        for e in arr {
            out.push(e.as_str().unwrap_or("").to_string());
        }
    }
    out
}

/// Relies on `toml::Value::get`, `as_table`, `Map::iter` and `as_str`:
/// reads one table section of the document value, one pair per entry
/// in declaration order (the table type keeps insertion order); the
/// result depends on the value alone.
#[verifier::external_body]
fn read_pairs(v: &toml::Value, sec: &str, field: &str) -> (r: Vec<(String, String)>)
    ensures
        r.deep_view() == pairs_in(*v, sec@, field@),
{
    let mut out = Vec::new();
    if let Some(t) = v.get(sec).and_then(|s| s.get(field)).and_then(|f| f.as_table()) {
        for (k, val) in t.iter() {
            out.push((k.clone(), val.as_str().unwrap_or("").to_string()));
        }
    }
    out
}

/// Reduce a parsed document to its four sections as plain values; a
/// missing or mistyped section is empty.
fn extract_doc(root: &toml::Value) -> (d: ConfigDoc)
    ensures
        d@ == doc_sections(*root),
{
    let input_keys = read_names(root, "input", "keys");
    let remap = read_pairs(root, "input", "remap");
    let output_keys = read_names(root, "output", "keys");
    let chords = read_pairs(root, "output", "chords");
    proof {
        reveal_strlit("input");
        reveal_strlit("keys");
        reveal_strlit("remap");
        reveal_strlit("output");
        reveal_strlit("chords");
        assert("input"@ =~= seq!['i', 'n', 'p', 'u', 't']);
        assert("keys"@ =~= seq!['k', 'e', 'y', 's']);
        assert("remap"@ =~= seq!['r', 'e', 'm', 'a', 'p']);
        assert("output"@ =~= seq!['o', 'u', 't', 'p', 'u', 't']);
        assert("chords"@ =~= seq!['c', 'h', 'o', 'r', 'd', 's']);
    }
    ConfigDoc { input_keys, remap, output_keys, chords }
}

/// What a successful load holds of its text: the text denotes a
/// document whose key counts fit the chord mask, and the result is
/// exactly that document's compilation, with its diagnostics.
pub open spec fn loaded_from(s: Seq<char>, c: ChordConfig, d: Seq<Diag>) -> bool {
    match toml_doc(s) {
        Some(doc) => {
            &&& doc.input_keys.len() <= 64
            &&& doc.output_keys.len() <= 64
            &&& compiles_to(doc, c)
            &&& d == compile_diags(doc)
        },
        None => false,
    }
}

impl ChordConfig {
    /// Load a configuration from document text: parse it, reduce it to
    /// its four sections, and compile those. A structurally
    /// unparseable document is a fatal error; so is one declaring more
    /// keys than the chord mask has bits.
    pub fn load(text: &str) -> (r: Result<(ChordConfig, Vec<Diag>), ConfigError>)
        ensures
            r matches Ok(p) ==> p.0.wf() && loaded_from(text@, p.0, p.1@),
            r matches Err(e) ==> match e {
                ConfigError::Parse(_) => toml_doc(text@) is None,
                ConfigError::TooManyKeys => toml_doc(text@) matches Some(doc)
                    && (doc.input_keys.len() > 64 || doc.output_keys.len() > 64),
            },
    {
        match toml_parse(text) {
            Err(e) => Err(ConfigError::Parse(e)),
            Ok(v) => {
                let doc = extract_doc(&v);
                proof {
                    assert(toml_doc(text@) == Some(doc@));
                    assert(doc@.input_keys.len() == doc.input_keys@.len());
                    assert(doc@.output_keys.len() == doc.output_keys@.len());
                }
                if doc.input_keys.len() > 64 || doc.output_keys.len() > 64 {
                    Err(ConfigError::TooManyKeys)
                } else {
                    let (c, d) = Self::compile(&doc);
                    Ok((c, d))
                }
            },
        }
    }
}

} // verus!
