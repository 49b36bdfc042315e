//! A tree of layers: layer 0 is the root, every other layer is opened by an
//! `OpenLayer` action and closed by any other action or by the cancel chord.
use vstd::prelude::*;
use crate::keys::{chords_of, Action, Binding, Chord, Layer};

verus! {

/// Why a set of layers cannot be used as a keymap.
#[derive(Clone, Copy, Debug, PartialEq, Eq, Structural)]
pub enum ConfigError {
    /// There is no root layer.
    NoLayers,
    /// The layer with this index binds one chord twice.
    DuplicateChord(usize),
    /// The non-root layer with this index binds the reserved cancel chord.
    CancelCollision(usize),
    /// The layer with this index opens a layer that does not exist, or the root.
    BadTarget(usize),
}

/// The layers of a keymap and the chord that cancels any non-root layer.
pub struct Keymap {
    pub layers: Vec<Layer>,
    pub cancel: Chord,
}

/// No chord is bound twice in `bs`.
pub open spec fn unique_chords(bs: Seq<Binding>) -> bool {
    forall|i: int, j: int|
        0 <= i < bs.len() && 0 <= j < bs.len() && i != j ==> #[trigger] bs[i].chord != #[trigger] bs[j].chord
}

/// Every layer that `bs` opens exists among `n` layers and is not the root.
pub open spec fn targets_valid(bs: Seq<Binding>, n: int) -> bool {
    forall|i: int|
        0 <= i < bs.len() ==> match #[trigger] bs[i].action {
            Action::OpenLayer(k) => 1 <= k < n,
            _ => true,
        }
}

/// The action that `bs` binds to `c`, the first one if there are several.
pub open spec fn find(bs: Seq<Binding>, c: Chord) -> Option<Action>
    decreases bs.len(),
{
    if bs.len() == 0 {
        None
    } else if bs[0].chord == c {
        Some(bs[0].action)
    } else {
        find(bs.drop_first(), c)
    }
}

/// The layer with index `i` is sound within `layers`.
pub open spec fn layer_ok(layers: Seq<Layer>, cancel: Chord, i: int) -> bool {
    &&& unique_chords(layers[i].bindings@)
    &&& targets_valid(layers[i].bindings@, layers.len() as int)
    &&& (i != 0 ==> !chords_of(layers[i].bindings@).contains(cancel))
}

/// Well-formedness of a keymap given as its layers and cancel chord.
pub open spec fn layers_ok(layers: Seq<Layer>, cancel: Chord) -> bool {
    &&& layers.len() >= 1
    &&& forall|i: int| 0 <= i < layers.len() ==> #[trigger] layer_ok(layers, cancel, i)
}

impl Keymap {
    pub open spec fn wf(&self) -> bool {
        layers_ok(self.layers@, self.cancel)
    }

    /// The bindings of layer `i`.
    pub open spec fn bindings(&self, i: int) -> Seq<Binding> {
        self.layers@[i].bindings@
    }

    /// The chords that layer `i` binds itself.
    pub open spec fn layer_chords(&self, i: int) -> Set<Chord> {
        chords_of(self.bindings(i))
    }

    /// The chords installed on the seat while layer `i` is active: the root's
    /// own chords, or a nested layer's chords plus the cancel chord.
    pub open spec fn installed_at(&self, i: int) -> Set<Chord> {
        if i == 0 {
            self.layer_chords(0)
        } else {
            self.layer_chords(i).insert(self.cancel)
        }
    }

    /// The action that fires when `c` is pressed while layer `i` is active.
    pub open spec fn action_at(&self, i: int, c: Chord) -> Option<Action> {
        if i != 0 && c == self.cancel {
            Some(Action::Cancel)
        } else {
            find(self.bindings(i), c)
        }
    }

    /// The layer that is active after `c` is pressed while layer `i` is.
    pub open spec fn next_layer(&self, i: int, c: Chord) -> int {
        match self.action_at(i, c) {
            Some(Action::OpenLayer(k)) => k as int,
            Some(_) => 0,
            None => i,
        }
    }

    /// Checks the layers and builds a keymap from them.
    pub fn new(layers: Vec<Layer>, cancel: Chord) -> (r: Result<Keymap, ConfigError>)
        ensures
            r is Ok <==> layers_ok(layers@, cancel),
            r is Ok ==> r->Ok_0.layers@ == layers@ && r->Ok_0.cancel == cancel,
            r == Err::<Keymap, ConfigError>(ConfigError::NoLayers) <==> layers@.len() == 0,
            forall|i: usize| r == Err::<Keymap, ConfigError>(ConfigError::DuplicateChord(i))
                ==> i < layers@.len() && !unique_chords(layers@[i as int].bindings@),
            forall|i: usize| r == Err::<Keymap, ConfigError>(ConfigError::CancelCollision(i))
                ==> 1 <= i < layers@.len() && chords_of(layers@[i as int].bindings@).contains(cancel),
            forall|i: usize| r == Err::<Keymap, ConfigError>(ConfigError::BadTarget(i))
                ==> i < layers@.len() && !targets_valid(layers@[i as int].bindings@, layers@.len() as int),
    {
        let n = layers.len();
        if n == 0 {
            return Err(ConfigError::NoLayers);
        }
        let mut i: usize = 0;
        while i < n
            invariant
                n == layers@.len(),
                0 <= i <= n,
                forall|k: int| 0 <= k < i ==> #[trigger] layer_ok(layers@, cancel, k),
            decreases n - i,
        {
            let bs = &layers[i].bindings;
            if !no_duplicates(bs) {
                assert(!layer_ok(layers@, cancel, i as int));
                return Err(ConfigError::DuplicateChord(i));
            }
            if i != 0 && binds(bs, cancel) {
                assert(!layer_ok(layers@, cancel, i as int));
                return Err(ConfigError::CancelCollision(i));
            }
            if !opens_valid(bs, n) {
                assert(!layer_ok(layers@, cancel, i as int));
                return Err(ConfigError::BadTarget(i));
            }
            i += 1;
        }
        Ok(Keymap { layers, cancel })
    }

    /// The action that `c` fires while layer `i` is active.
    pub fn action_for(&self, i: usize, c: Chord) -> (r: Option<Action>)
        requires
            i < self.layers@.len(),
        ensures
            r == self.action_at(i as int, c),
    {
        if i != 0 && c == self.cancel {
            Some(Action::Cancel)
        } else {
            lookup(&self.layers[i].bindings, c)
        }
    }
}

/// Whether no chord is bound twice in `bs`.
fn no_duplicates(bs: &Vec<Binding>) -> (r: bool)
    ensures
        r == unique_chords(bs@),
{
    let n = bs.len();
    let mut i: usize = 0;
    while i < n
        invariant
            n == bs@.len(),
            0 <= i <= n,
            forall|a: int, b: int|
                0 <= a < i && 0 <= b < n && a != b ==> #[trigger] bs@[a].chord != #[trigger] bs@[b].chord,
        decreases n - i,
    {
        let mut j: usize = 0;
        while j < n
            invariant
                n == bs@.len(),
                0 <= i < n,
                0 <= j <= n,
                forall|a: int, b: int|
                    0 <= a < i && 0 <= b < n && a != b ==> #[trigger] bs@[a].chord != #[trigger] bs@[b].chord,
                forall|b: int| 0 <= b < j && i != b ==> bs@[i as int].chord != #[trigger] bs@[b].chord,
            decreases n - j,
        {
            if i != j && bs[i].chord == bs[j].chord {
                return false;
            }
            j += 1;
        }
        i += 1;
    }
    true
}

/// Whether `bs` binds `c`.
fn binds(bs: &Vec<Binding>, c: Chord) -> (r: bool)
    ensures
        r == chords_of(bs@).contains(c),
{
    let n = bs.len();
    let mut i: usize = 0;
    while i < n
        invariant
            n == bs@.len(),
            0 <= i <= n,
            forall|k: int| 0 <= k < i ==> #[trigger] bs@[k].chord != c,
        decreases n - i,
    {
        if bs[i].chord == c {
            assert(bs@[i as int].chord == c);
            return true;
        }
        i += 1;
    }
    false
}

/// Whether every layer that `bs` opens lies in `1..n`.
fn opens_valid(bs: &Vec<Binding>, n: usize) -> (r: bool)
    ensures
        r == targets_valid(bs@, n as int),
{
    let len = bs.len();
    let mut i: usize = 0;
    while i < len
        invariant
            len == bs@.len(),
            0 <= i <= len,
            forall|k: int| 0 <= k < i ==> match #[trigger] bs@[k].action {
                Action::OpenLayer(t) => 1 <= t < n,
                _ => true,
            },
        decreases len - i,
    {
        match bs[i].action {
            Action::OpenLayer(t) => {
                if t < 1 || t >= n {
                    return false;
                }
            },
            _ => {},
        }
        i += 1;
    }
    true
}

/// The action that `bs` binds to `c`.
fn lookup(bs: &Vec<Binding>, c: Chord) -> (r: Option<Action>)
    ensures
        r == find(bs@, c),
{
    let n = bs.len();
    let mut i: usize = 0;
    assert(bs@.subrange(0, n as int) =~= bs@);
    while i < n
        invariant
            n == bs@.len(),
            0 <= i <= n,
            find(bs@, c) == find(bs@.subrange(i as int, n as int), c),
        decreases n - i,
    {
        assert(bs@.subrange(i as int, n as int)[0] == bs@[i as int]);
        if bs[i].chord == c {
            return Some(bs[i].action);
        }
        assert(bs@.subrange(i as int, n as int).drop_first() =~= bs@.subrange(i + 1, n as int));
        i += 1;
    }
    None
}

} // verus!
