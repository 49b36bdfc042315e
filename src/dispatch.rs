//! The dispatcher: it keeps track of the active layer and hands out, for each
//! transition, the bind and unbind operations that bring the seat's bound
//! chords to those of the new layer.
use vstd::prelude::*;
use crate::keymap::Keymap;
use crate::keys::{apply_op, apply_ops, chords_of, lemma_apply_push, lemma_chords_of_full, lemma_chords_of_take, Action, Binding, Chord, SeatOp};

verus! {

/// What one key press did: the action that fired, if the chord was bound, and
/// the operations to perform on the seat, in order.
pub struct Response {
    pub fired: Option<Action>,
    pub ops: Vec<SeatOp>,
}

/// The state of modal dispatch on one seat.
pub struct Dispatcher {
    keymap: Keymap,
    active: usize,
    installed: Ghost<Set<Chord>>,
}

impl Dispatcher {
    /// The keymap that is dispatched.
    pub closed spec fn keymap(&self) -> Keymap {
        self.keymap
    }

    /// The index of the active layer.
    pub closed spec fn active(&self) -> int {
        self.active as int
    }

    /// The chords that the seat has bound.
    pub closed spec fn installed(&self) -> Set<Chord> {
        self.installed@
    }

    /// The keymap is sound, the active layer exists, and the seat has bound
    /// exactly what the active layer installs.
    pub open spec fn wf(&self) -> bool {
        &&& self.keymap().wf()
        &&& 0 <= self.active() < self.keymap().layers@.len()
        &&& self.installed() == self.keymap().installed_at(self.active())
    }

    /// `next` is this dispatcher moved to layer `layer`, and performing `ops`
    /// on the seat turns the chords bound now into those bound in `next`.
    pub open spec fn moves_to(&self, next: Dispatcher, layer: int, ops: Seq<SeatOp>) -> bool {
        &&& next.wf()
        &&& next.keymap() == self.keymap()
        &&& next.active() == layer
        &&& next.installed() == self.keymap().installed_at(layer)
        &&& apply_ops(self.installed(), ops) == next.installed()
    }

    /// Starts dispatch on a seat with nothing bound: the root layer is active
    /// and the operations bind its chords.
    pub fn install(keymap: Keymap) -> (r: (Dispatcher, Vec<SeatOp>))
        requires
            keymap.wf(),
        ensures
            r.0.wf(),
            r.0.keymap() == keymap,
            r.0.active() == 0,
            r.0.installed() == keymap.layer_chords(0),
            apply_ops(Set::empty(), r.1@) == r.0.installed(),
    {
        let mut ops: Vec<SeatOp> = Vec::new();
        push_binds(&keymap.layers[0].bindings, &mut ops, Ghost(Set::empty()));
        assert(Set::<Chord>::empty().union(keymap.layer_chords(0)) =~= keymap.layer_chords(0));
        let ghost inst = keymap.installed_at(0);
        (Dispatcher { keymap, active: 0, installed: Ghost(inst) }, ops)
    }

    /// The index of the active layer.
    pub fn active_layer(&self) -> (r: usize)
        ensures
            r == self.active(),
    {
        self.active
    }

    /// The chords that the seat has bound, each once.
    pub fn installed_chords(&self) -> (r: Vec<Chord>)
        requires
            self.wf(),
        ensures
            r@.to_set() == self.installed(),
    {
        let bs = &self.keymap.layers[self.active].bindings;
        let mut r: Vec<Chord> = Vec::new();
        let n = bs.len();
        let mut i: usize = 0;
        while i < n
            invariant
                n == bs@.len(),
                0 <= i <= n,
                r@.to_set() == chords_of(bs@.take(i as int)),
            decreases n - i,
        {
            proof {
                lemma_chords_of_take(bs@, i as int);
            }
            let ghost prev = r@;
            r.push(bs[i].chord);
            proof {
                prev.lemma_push_to_set_commute(bs@[i as int].chord);
                assert(r@ == prev.push(bs@[i as int].chord));
                assert(r@.to_set() =~= chords_of(bs@.take(i as int)).insert(bs@[i as int].chord));
            }
            i += 1;
        }
        proof {
            lemma_chords_of_full(bs@);
        }
        if self.active != 0 {
            let ghost prev = r@;
            r.push(self.keymap.cancel);
            proof {
                prev.lemma_push_to_set_commute(self.keymap.cancel);
                assert(r@ == prev.push(self.keymap.cancel));
                assert(r@.to_set() =~= self.keymap.installed_at(self.active as int));
            }
        }
        r
    }

    /// Retracts every chord of the active layer, the cancel chord included,
    /// and reinstalls the root layer's chords.
    pub fn reset(&mut self) -> (r: Vec<SeatOp>)
        requires
            old(self).wf(),
        ensures
            old(self).moves_to(*final(self), 0, r@),
    {
        let mut ops = self.retract();
        let ghost mid = apply_ops(self.installed@, ops@);
        push_binds(&self.keymap.layers[0].bindings, &mut ops, Ghost(self.installed@));
        assert(mid.union(self.keymap.layer_chords(0)) =~= self.keymap.installed_at(0));
        self.active = 0;
        self.installed = Ghost(self.keymap.installed_at(0));
        ops
    }

    /// Retracts every chord of the active layer and installs those of layer
    /// `k` together with the cancel chord.
    pub fn open_layer(&mut self, k: usize) -> (r: Vec<SeatOp>)
        requires
            old(self).wf(),
            1 <= k < old(self).keymap().layers@.len(),
        ensures
            old(self).moves_to(*final(self), k as int, r@),
    {
        let mut ops = self.retract();
        let ghost mid = apply_ops(self.installed@, ops@);
        push_binds(&self.keymap.layers[k].bindings, &mut ops, Ghost(self.installed@));
        let ghost mid2 = apply_ops(self.installed@, ops@);
        let ghost prev = ops@;
        ops.push(SeatOp::Bind(self.keymap.cancel));
        proof {
            lemma_apply_push(self.installed@, prev, SeatOp::Bind(self.keymap.cancel));
            assert(mid.union(self.keymap.layer_chords(k as int)).insert(self.keymap.cancel)
                =~= self.keymap.installed_at(k as int));
        }
        self.active = k;
        self.installed = Ghost(self.keymap.installed_at(k as int));
        ops
    }

    /// Operations that unbind every chord the seat has bound.
    fn retract(&self) -> (r: Vec<SeatOp>)
        requires
            self.wf(),
        ensures
            apply_ops(self.installed(), r@) == Set::<Chord>::empty(),
    {
        let mut ops: Vec<SeatOp> = Vec::new();
        push_unbinds(&self.keymap.layers[self.active].bindings, &mut ops, Ghost(self.installed@));
        let ghost s = self.installed@;
        let ghost lc = self.keymap.layer_chords(self.active as int);
        if self.active != 0 {
            let ghost prev = ops@;
            ops.push(SeatOp::Unbind(self.keymap.cancel));
            proof {
                lemma_apply_push(s, prev, SeatOp::Unbind(self.keymap.cancel));
                assert(s.difference(lc).remove(self.keymap.cancel) =~= Set::<Chord>::empty());
            }
        } else {
            assert(s.difference(lc) =~= Set::<Chord>::empty());
        }
        ops
    }

    /// Handles a press of `c`: fires the action bound to it in the active
    /// layer (the cancel chord cancels any nested layer), then opens the
    /// layer it names or returns to the root. An unbound chord changes
    /// nothing.
    pub fn press(&mut self, c: Chord) -> (r: Response)
        requires
            old(self).wf(),
        ensures
            r.fired == old(self).keymap().action_at(old(self).active(), c),
            old(self).moves_to(*final(self), old(self).keymap().next_layer(old(self).active(), c), r.ops@),
    {
        let fired = self.keymap.action_for(self.active, c);
        match fired {
            Some(Action::OpenLayer(k)) => {
                proof {
                    lemma_find_in(self.keymap.bindings(self.active as int), c);
                    let j = choose|j: int|
                        0 <= j < self.keymap.bindings(self.active as int).len()
                        && #[trigger] self.keymap.bindings(self.active as int)[j].action == Action::OpenLayer(k);
                    assert(crate::keymap::layer_ok(self.keymap.layers@, self.keymap.cancel, self.active as int));
                }
                let ops = self.open_layer(k);
                Response { fired, ops }
            },
            Some(_) => {
                let ops = self.reset();
                Response { fired, ops }
            },
            None => {
                assert(apply_ops(self.installed@, Seq::<SeatOp>::empty()) == self.installed@);
                Response { fired, ops: Vec::new() }
            },
        }
    }
}

/// A press of a chord that the active layer binds to anything other than
/// opening a layer fires exactly that one action, and afterwards the root
/// layer is active and the seat has bound the root layer's chords and no
/// others.
pub proof fn lemma_terminal_press_restores_root(d: Dispatcher, next: Dispatcher, c: Chord, ops: Seq<SeatOp>)
    requires
        d.wf(),
        d.keymap().action_at(d.active(), c) is Some,
        !(d.keymap().action_at(d.active(), c)->Some_0 is OpenLayer),
        d.moves_to(next, d.keymap().next_layer(d.active(), c), ops),
    ensures
        next.active() == 0,
        apply_ops(d.installed(), ops) == d.keymap().layer_chords(0),
{
}

/// Resetting twice in a row ends where resetting once does, and the second
/// reset leaves the seat's bound chords as they were.
pub proof fn lemma_reset_twice(
    d0: Dispatcher,
    d1: Dispatcher,
    d2: Dispatcher,
    ops1: Seq<SeatOp>,
    ops2: Seq<SeatOp>,
)
    requires
        d0.wf(),
        d0.moves_to(d1, 0, ops1),
        d1.moves_to(d2, 0, ops2),
    ensures
        d2.keymap() == d1.keymap(),
        d2.active() == d1.active(),
        d2.installed() == d1.installed(),
        apply_ops(d1.installed(), ops2) == d1.installed(),
{
}

/// Opening layer `k` leaves bound exactly the chords of `k` and the cancel
/// chord: a chord that was bound before stays bound only if it is one of
/// these.
pub proof fn lemma_open_layer_replaces(d: Dispatcher, next: Dispatcher, k: int, ops: Seq<SeatOp>)
    requires
        d.wf(),
        1 <= k < d.keymap().layers@.len(),
        d.moves_to(next, k, ops),
    ensures
        next.installed() == d.keymap().layer_chords(k).insert(d.keymap().cancel),
        forall|c: Chord| #[trigger] d.installed().contains(c) && next.installed().contains(c)
            ==> d.keymap().layer_chords(k).contains(c) || c == d.keymap().cancel,
{
}

/// In any nested layer the cancel chord fires `Cancel` and returns to the
/// root layer with the root layer's chords bound.
pub proof fn lemma_cancel_returns_to_root(d: Dispatcher, next: Dispatcher, ops: Seq<SeatOp>)
    requires
        d.wf(),
        d.active() != 0,
        d.moves_to(next, d.keymap().next_layer(d.active(), d.keymap().cancel), ops),
    ensures
        d.keymap().action_at(d.active(), d.keymap().cancel) == Some(Action::Cancel),
        next.active() == 0,
        next.installed() == d.keymap().layer_chords(0),
{
}

/// An action that `find` returns is bound somewhere in the list.
proof fn lemma_find_in(bs: Seq<Binding>, c: Chord)
    requires
        crate::keymap::find(bs, c) is Some,
    ensures
        exists|j: int| 0 <= j < bs.len() && #[trigger] bs[j].action == crate::keymap::find(bs, c)->Some_0,
    decreases bs.len(),
{
    if bs[0].chord == c {
        assert(bs[0].action == crate::keymap::find(bs, c)->Some_0);
    } else {
        lemma_find_in(bs.drop_first(), c);
        let j = choose|j: int|
            0 <= j < bs.drop_first().len() && #[trigger] bs.drop_first()[j].action
                == crate::keymap::find(bs.drop_first(), c)->Some_0;
        assert(bs[j + 1].action == crate::keymap::find(bs, c)->Some_0);
    }
}

/// Appends an unbind of each chord of `bs` to `ops`.
fn push_unbinds(bs: &Vec<Binding>, ops: &mut Vec<SeatOp>, Ghost(base): Ghost<Set<Chord>>)
    ensures
        apply_ops(base, final(ops)@) == apply_ops(base, old(ops)@).difference(chords_of(bs@)),
{
    let ghost start = apply_ops(base, ops@);
    let n = bs.len();
    let mut i: usize = 0;
    assert(start.difference(chords_of(bs@.take(0))) =~= start);
    while i < n
        invariant
            n == bs@.len(),
            0 <= i <= n,
            start == apply_ops(base, old(ops)@),
            apply_ops(base, ops@) == start.difference(chords_of(bs@.take(i as int))),
        decreases n - i,
    {
        let c = bs[i].chord;
        let ghost prev = ops@;
        ops.push(SeatOp::Unbind(c));
        proof {
            lemma_apply_push(base, prev, SeatOp::Unbind(c));
            lemma_chords_of_take(bs@, i as int);
            assert(start.difference(chords_of(bs@.take(i as int))).remove(c)
                =~= start.difference(chords_of(bs@.take(i + 1))));
        }
        i += 1;
    }
    proof {
        lemma_chords_of_full(bs@);
    }
}

/// Appends a bind of each chord of `bs` to `ops`.
fn push_binds(bs: &Vec<Binding>, ops: &mut Vec<SeatOp>, Ghost(base): Ghost<Set<Chord>>)
    ensures
        apply_ops(base, final(ops)@) == apply_ops(base, old(ops)@).union(chords_of(bs@)),
{
    let ghost start = apply_ops(base, ops@);
    let n = bs.len();
    let mut i: usize = 0;
    assert(start.union(chords_of(bs@.take(0))) =~= start);
    while i < n
        invariant
            n == bs@.len(),
            0 <= i <= n,
            start == apply_ops(base, old(ops)@),
            apply_ops(base, ops@) == start.union(chords_of(bs@.take(i as int))),
        decreases n - i,
    {
        let c = bs[i].chord;
        let ghost prev = ops@;
        ops.push(SeatOp::Bind(c));
        proof {
            lemma_apply_push(base, prev, SeatOp::Bind(c));
            lemma_chords_of_take(bs@, i as int);
            assert(start.union(chords_of(bs@.take(i as int))).insert(c)
                =~= start.union(chords_of(bs@.take(i + 1))));
        }
        i += 1;
    }
    proof {
        lemma_chords_of_full(bs@);
    }
}

} // verus!
