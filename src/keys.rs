//! Chords, actions and the operations that change what a seat has bound.
use vstd::prelude::*;

verus! {

/// The key symbols that the bindings of this configuration use.
#[derive(Clone, Copy, Debug, PartialEq, Eq, Hash, Structural)]
pub enum Key {
    Escape,
    Return,
    F1,
    A,
    B,
    C,
    D,
    E,
    F,
    I,
    L,
    M,
    N,
    Q,
    R,
    S,
    T,
    U,
    W,
}

/// A base key together with its modifier set. The only modifier the
/// configuration uses is Shift; two chords are the same exactly when both
/// parts agree, so `S` and `Shift+S` are different chords.
#[derive(Clone, Copy, Debug, PartialEq, Eq, Hash, Structural)]
pub struct Chord {
    pub shift: bool,
    pub key: Key,
}

impl Chord {
    /// The chord of a key pressed without modifiers.
    pub fn plain(key: Key) -> (r: Chord)
        ensures
            r == (Chord { shift: false, key }),
    {
        Chord { shift: false, key }
    }

    /// The chord of a key pressed with Shift held.
    pub fn shifted(key: Key) -> (r: Chord)
        ensures
            r == (Chord { shift: true, key }),
    {
        Chord { shift: true, key }
    }
}

/// A direction in which the seat can move keyboard focus.
#[derive(Clone, Copy, Debug, PartialEq, Eq, Structural)]
pub enum Direction {
    Left,
    Down,
    Up,
    Right,
}

/// A helper program that a binding can launch.
#[derive(Clone, Copy, Debug, PartialEq, Eq, Structural)]
pub enum Program {
    Terminal,
    Browser,
    Launcher,
    PowerMenu,
}

/// A one-shot command handed to the host when a binding fires.
#[derive(Clone, Copy, Debug, PartialEq, Eq, Structural)]
pub enum Effect {
    Quit,
    Close,
    ToggleFullscreen,
    Focus(Direction),
    /// Show the workspace with this number on the seat's output.
    ShowWorkspace(u32),
    /// Move the focused window to the workspace with this number.
    SetWorkspace(u32),
    Launch(Program),
}

/// What a chord does when pressed.
#[derive(Clone, Copy, Debug, PartialEq, Eq, Structural)]
pub enum Action {
    /// Replace the active bindings by those of the layer with this index.
    OpenLayer(usize),
    /// Run the effect, then return to the root layer.
    Run(Effect),
    /// Return to the root layer without running anything.
    Cancel,
}

/// One entry of a layer: a chord and the action bound to it.
#[derive(Clone, Copy, Debug, PartialEq, Eq, Structural)]
pub struct Binding {
    pub chord: Chord,
    pub action: Action,
}

/// A set of bindings that is active during one modal context.
pub struct Layer {
    pub bindings: Vec<Binding>,
}

/// A change of the seat's bound chords.
#[derive(Clone, Copy, Debug, PartialEq, Eq, Structural)]
pub enum SeatOp {
    Bind(Chord),
    Unbind(Chord),
}

/// The chords bound after one operation on a seat that had `s` bound.
pub open spec fn apply_op(s: Set<Chord>, op: SeatOp) -> Set<Chord> {
    match op {
        SeatOp::Bind(c) => s.insert(c),
        SeatOp::Unbind(c) => s.remove(c),
    }
}

/// The chords bound after performing `ops` in order on a seat that had `s`
/// bound.
pub open spec fn apply_ops(s: Set<Chord>, ops: Seq<SeatOp>) -> Set<Chord>
    decreases ops.len(),
{
    if ops.len() == 0 {
        s
    } else {
        apply_op(apply_ops(s, ops.drop_last()), ops.last())
    }
}

/// The set of chords that a list of bindings binds.
pub open spec fn chords_of(bs: Seq<Binding>) -> Set<Chord> {
    Set::new(|c: Chord| exists|j: int| 0 <= j < bs.len() && #[trigger] bs[j].chord == c)
}

/// Appending one operation applies it last.
pub proof fn lemma_apply_push(s: Set<Chord>, ops: Seq<SeatOp>, op: SeatOp)
    ensures
        apply_ops(s, ops.push(op)) == apply_op(apply_ops(s, ops), op),
{
    assert(ops.push(op).drop_last() =~= ops);
}

/// Adding one more binding to a prefix adds its chord.
pub proof fn lemma_chords_of_take(bs: Seq<Binding>, j: int)
    requires
        0 <= j < bs.len(),
    ensures
        chords_of(bs.take(j + 1)) == chords_of(bs.take(j)).insert(bs[j].chord),
{
    let a = bs.take(j + 1);
    let b = bs.take(j);
    assert forall|c: Chord| chords_of(a).contains(c) <==> chords_of(b).insert(bs[j].chord).contains(c) by {
        if chords_of(a).contains(c) {
            let k = choose|k: int| 0 <= k < a.len() && #[trigger] a[k].chord == c;
            if k < j {
                assert(b[k].chord == c);
            }
        }
        if chords_of(b).contains(c) {
            let k = choose|k: int| 0 <= k < b.len() && #[trigger] b[k].chord == c;
            assert(a[k].chord == c);
        }
        if c == bs[j].chord {
            assert(a[j].chord == c);
        }
    }
    assert(chords_of(a) =~= chords_of(b).insert(bs[j].chord));
}

/// The whole list is its longest prefix.
pub proof fn lemma_chords_of_full(bs: Seq<Binding>)
    ensures
        chords_of(bs.take(bs.len() as int)) == chords_of(bs),
{
    assert(bs.take(bs.len() as int) =~= bs);
}

} // verus!
