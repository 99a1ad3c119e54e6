//! Key events, output bindings, and the key registry: a bidirectional
//! mapping between canonical key names (strings like "KEY_A") and key
//! codes, backed by the platform key table.

use vstd::prelude::*;

verus! {

/// A chord bitmask: bit `i` set means the participant key assigned bit
/// position `i` is involved.
pub type Chord = u64;

/// One key event: a key code and a transition value
/// (1 = press, 0 = release; other values are key repeats and the like).
#[derive(Clone, Copy, PartialEq, Eq, Structural, Debug)]
pub struct KeyEvent {
    pub code: u16,
    pub value: i32,
}

/// An output binding: the ordered events emitted for a completed chord.
pub type KeyBind = Vec<KeyEvent>;

/// The press/release pair ("tap") emitted for a single bound output key.
pub open spec fn single_bind_spec(code: u16) -> Seq<KeyEvent> {
    seq![
        KeyEvent { code, value: 1 },
        KeyEvent { code, value: 0 },
    ]
}

/// Build the synthetic tap for one output key: a press immediately
/// followed by a release.
pub fn single_bind(code: u16) -> (r: Vec<KeyEvent>)
    ensures
        r@ == single_bind_spec(code),
{
    let mut r: Vec<KeyEvent> = Vec::new();
    r.push(KeyEvent { code, value: 1 });
    r.push(KeyEvent { code, value: 0 });
    proof {
        assert(r@ =~= single_bind_spec(code));
    }
    r
}

/// Builders for output bindings.
pub trait ConstructKeyBind: Sized + View<V = Seq<KeyEvent>> {
    /// Build the binding for a single output key: its tap.
    fn single(code: u16) -> (r: Self)
        ensures
            r@ == single_bind_spec(code),
    ;
}

impl ConstructKeyBind for KeyBind {
    fn single(code: u16) -> Self {
        single_bind(code)
    }
}

/// The canonical display name of key code `code` in the platform key
/// table (for example, code 30 displays as "KEY_A").
pub uninterp spec fn key_name_of(code: u16) -> Seq<char>;

/// Relies on `evdev::Key`'s `Debug` rendering: it prints the canonical
/// name from the platform key table, a function of the code alone.
#[verifier::external_body]
fn key_debug_name(code: u16) -> (r: String)
    ensures
        r@ == key_name_of(code),
{
    format!("{:?}", evdev::Key::new(code))
}

/// The display name of a key code: total, every code has a name.
pub fn display_key(code: u16) -> (r: String)
    ensures
        r@ == key_name_of(code),
{
    key_debug_name(code)
}

/// Relies on `String::push`: appends the given character to the end of
/// the string.
#[verifier::external_body]
fn push_char(s: &mut String, c: char)
    ensures
        final(s)@ == old(s)@ + seq![c],
{
    s.push(c)
}

/// One past the highest key code the registry scans; codes at or above
/// this bound are never resolved by name.
pub const KEY_CODE_LIMIT: u16 = 743;

/// The canonical long form of a short key name: the name with the key
/// prefix in front ("A" becomes "KEY_A").
pub open spec fn key_target(name: Seq<char>) -> Seq<char> {
    seq!['K', 'E', 'Y', '_'] + name
}

/// The smallest key code at or after `code` whose canonical name is
/// `target`, if any code below the scan bound has that name.
pub open spec fn find_code_from(target: Seq<char>, code: u16) -> Option<u16>
    decreases KEY_CODE_LIMIT - code,
{
    if code >= KEY_CODE_LIMIT {
        None
    } else if key_name_of(code) == target {
        Some(code)
    } else {
        find_code_from(target, (code + 1) as u16)
    }
}

/// The smallest key code whose canonical name is `target`.
pub open spec fn find_code(target: Seq<char>) -> Option<u16> {
    find_code_from(target, 0)
}

/// What resolving a short key name yields: the smallest code whose
/// canonical name is the name's long form.
pub open spec fn resolve_spec(name: Seq<char>) -> Option<u16> {
    find_code(key_target(name))
}

/// Scan the key table for the code whose canonical name is `target`.
fn scan_key(target: &String) -> (r: Option<u16>)
    ensures
        r == find_code(target@),
{
    let mut code: u16 = 0;
    while code < KEY_CODE_LIMIT
        invariant
            code <= KEY_CODE_LIMIT,
            find_code(target@) == find_code_from(target@, code),
        decreases KEY_CODE_LIMIT - code,
    {
        let name = key_debug_name(code);
        if name == *target {
            return Some(code);
        }
        code = code + 1;
    }
    None
}

/// Resolve a short key name ("A") to its key code, by its long form
/// ("KEY_A") in the key table. Case-sensitive; unknown names give `None`.
pub fn name_to_key(name: &str) -> (r: Option<u16>)
    ensures
        r == resolve_spec(name@),
{
    let mut target = String::from_str("KEY_");
    proof {
        reveal_strlit("KEY_");
        assert(target@ =~= seq!['K', 'E', 'Y', '_']);
    }
    target.append(name);
    proof {
        assert(target@ =~= key_target(name@));
    }
    scan_key(&target)
}

/// Resolve a single-character key name (a chord-spec component) to its
/// key code.
pub fn resolve_char(c: char) -> (r: Option<u16>)
    ensures
        r == resolve_spec(seq![c]),
{
    let mut target = String::from_str("KEY_");
    proof {
        reveal_strlit("KEY_");
        assert(target@ =~= seq!['K', 'E', 'Y', '_']);
    }
    push_char(&mut target, c);
    proof {
        assert(target@ =~= key_target(seq![c]));
    }
    scan_key(&target)
}

/// The label of a transition value in a binding: bindings hold only
/// presses (1, "DOWN") and releases (0, "UP").
pub open spec fn state_label(value: i32) -> Seq<char> {
    if value == 1 {
        seq!['D', 'O', 'W', 'N']
    } else {
        seq!['U', 'P']
    }
}

/// The diagnostic line for one event of a binding: the key's canonical
/// name, a space, and the transition label.
pub open spec fn event_label(e: KeyEvent) -> Seq<char> {
    key_name_of(e.code) + seq![' '] + state_label(e.value)
}

/// Diagnostic rendering of output bindings. Only presses and releases
/// can be rendered, as in a binding; other transition values are left
/// out by precondition.
pub trait PrintKeyBind: View<V = Seq<KeyEvent>> {
    /// One line per event: the key's name and its transition.
    fn display(&self) -> (r: Vec<String>)
        requires
            forall|i: int| 0 <= i < self@.len()
                ==> (#[trigger] self@[i]).value == 0 || self@[i].value == 1,
        ensures
            r@.len() == self@.len(),
            forall|i: int| 0 <= i < self@.len() ==> #[trigger] r@[i]@ == event_label(self@[i]),
    ;
}

impl PrintKeyBind for KeyBind {
    fn display(&self) -> Vec<String> {
        display_bind(self)
    }
}

/// Render a binding for diagnostics: one line per event, the key's
/// canonical name followed by "DOWN" for a press and "UP" for a
/// release. Bindings hold only those two transitions; any other value
/// is left out by precondition.
pub fn display_bind(bind: &KeyBind) -> (r: Vec<String>)
    requires
        forall|i: int| 0 <= i < bind@.len()
            ==> (#[trigger] bind@[i]).value == 0 || bind@[i].value == 1,
    ensures
        r@.len() == bind@.len(),
        forall|i: int| 0 <= i < bind@.len() ==> #[trigger] r@[i]@ == event_label(bind@[i]),
{
    let mut r: Vec<String> = Vec::new();
    let mut i: usize = 0;
    while i < bind.len()
        invariant
            i <= bind@.len(),
            r@.len() == i,
            forall|j: int| 0 <= j < i ==> #[trigger] r@[j]@ == event_label(bind@[j]),
        decreases bind@.len() - i,
    {
        let e = bind[i];
        let mut line = key_debug_name(e.code);
        line.append(" ");
        if e.value == 1 {
            line.append("DOWN");
        } else {
            line.append("UP");
        }
        proof {
            reveal_strlit(" ");
            reveal_strlit("DOWN");
            reveal_strlit("UP");
            assert(line@ =~= event_label(bind@[i as int]));
        }
        r.push(line);
        i = i + 1;
    }
    r
}

} // verus!
