//! The bindings of this configuration: F1 leads into a menu of window,
//! focus and workspace commands, `d` in that menu leads into a menu of
//! programs to launch, and Escape leaves either menu.
use vstd::prelude::*;
use crate::keymap::{layers_ok, targets_valid, unique_chords, ConfigError, Keymap};
use crate::keys::{chords_of, Action, Binding, Chord, Direction, Effect, Key, Layer, Program};

verus! {

/// The binding of `key`, pressed without modifiers, to `action`.
pub open spec fn on(key: Key, action: Action) -> Binding {
    Binding { chord: Chord { shift: false, key }, action }
}

/// The binding of Shift+`key` to `action`.
pub open spec fn on_shift(key: Key, action: Action) -> Binding {
    Binding { chord: Chord { shift: true, key }, action }
}

/// The chord that leaves any menu.
pub open spec fn cancel_chord() -> Chord {
    Chord { shift: false, key: Key::Escape }
}

/// The root layer: the leader chord opens the main menu.
pub open spec fn root_bindings() -> Seq<Binding> {
    seq![on(Key::F1, Action::OpenLayer(1))]
}

/// The two bindings for workspace `n` on `key`: show it, and with Shift move
/// the focused window there.
pub open spec fn workspace_bindings(key: Key, n: u32) -> Seq<Binding> {
    seq![on(key, Action::Run(Effect::ShowWorkspace(n))), on_shift(key, Action::Run(Effect::SetWorkspace(n)))]
}

/// The main menu.
pub open spec fn main_bindings() -> Seq<Binding> {
    seq![
        on(Key::Q, Action::Run(Effect::Quit)),
        on(Key::W, Action::Run(Effect::Close)),
        on(Key::F, Action::Run(Effect::ToggleFullscreen)),
        on(Key::N, Action::Run(Effect::Focus(Direction::Left))),
        on(Key::E, Action::Run(Effect::Focus(Direction::Down))),
        on(Key::U, Action::Run(Effect::Focus(Direction::Up))),
        on(Key::I, Action::Run(Effect::Focus(Direction::Right))),
        on(Key::D, Action::OpenLayer(2)),
        on(Key::L, Action::Run(Effect::Launch(Program::PowerMenu))),
    ] + workspace_bindings(Key::B, 1) + workspace_bindings(Key::C, 2) + workspace_bindings(Key::S, 3)
        + workspace_bindings(Key::T, 4) + workspace_bindings(Key::M, 5)
}

/// The launch menu.
pub open spec fn launch_bindings() -> Seq<Binding> {
    seq![
        on(Key::Return, Action::Run(Effect::Launch(Program::Terminal))),
        on(Key::B, Action::Run(Effect::Launch(Program::Browser))),
        on(Key::D, Action::Run(Effect::Launch(Program::Launcher))),
    ]
}

fn plain(key: Key, action: Action) -> (r: Binding)
    ensures
        r == on(key, action),
{
    Binding { chord: Chord::plain(key), action }
}

/// Appends the bindings for workspace `n` on `key`.
pub fn bind_workspace(bs: &mut Vec<Binding>, key: Key, n: u32)
    ensures
        final(bs)@ == old(bs)@ + workspace_bindings(key, n),
{
    bs.push(plain(key, Action::Run(Effect::ShowWorkspace(n))));
    bs.push(Binding { chord: Chord::shifted(key), action: Action::Run(Effect::SetWorkspace(n)) });
    assert(final(bs)@ =~= old(bs)@ + workspace_bindings(key, n));
}

/// The layers of this configuration, root first, and the cancel chord.
pub fn build_keymap() -> (r: Result<Keymap, ConfigError>)
    ensures
        r is Ok,
        r->Ok_0.layers@.len() == 3,
        r->Ok_0.bindings(0) == root_bindings(),
        r->Ok_0.bindings(1) == main_bindings(),
        r->Ok_0.bindings(2) == launch_bindings(),
        r->Ok_0.cancel == cancel_chord(),
{
    let root = vec![plain(Key::F1, Action::OpenLayer(1))];
    let mut main = vec![
        plain(Key::Q, Action::Run(Effect::Quit)),
        plain(Key::W, Action::Run(Effect::Close)),
        plain(Key::F, Action::Run(Effect::ToggleFullscreen)),
        plain(Key::N, Action::Run(Effect::Focus(Direction::Left))),
        plain(Key::E, Action::Run(Effect::Focus(Direction::Down))),
        plain(Key::U, Action::Run(Effect::Focus(Direction::Up))),
        plain(Key::I, Action::Run(Effect::Focus(Direction::Right))),
        plain(Key::D, Action::OpenLayer(2)),
        plain(Key::L, Action::Run(Effect::Launch(Program::PowerMenu))),
    ];
    bind_workspace(&mut main, Key::B, 1);
    bind_workspace(&mut main, Key::C, 2);
    bind_workspace(&mut main, Key::S, 3);
    bind_workspace(&mut main, Key::T, 4);
    bind_workspace(&mut main, Key::M, 5);
    let launch = vec![
        plain(Key::Return, Action::Run(Effect::Launch(Program::Terminal))),
        plain(Key::B, Action::Run(Effect::Launch(Program::Browser))),
        plain(Key::D, Action::Run(Effect::Launch(Program::Launcher))),
    ];
    assert(main@ =~= main_bindings());
    assert(root@ =~= root_bindings());
    assert(launch@ =~= launch_bindings());
    let layers = vec![Layer { bindings: root }, Layer { bindings: main }, Layer { bindings: launch }];
    proof {
        lemma_authored_ok(layers@);
    }
    Keymap::new(layers, Chord::plain(Key::Escape))
}

/// No binding of `bs` from index `i` on has chord `c`.
spec fn absent(c: Chord, bs: Seq<Binding>, i: int) -> bool
    decreases bs.len() - i,
{
    if i < 0 || i >= bs.len() {
        true
    } else {
        bs[i].chord != c && absent(c, bs, i + 1)
    }
}

/// No chord occurs twice among the bindings of `bs` from index `i` on.
spec fn distinct(bs: Seq<Binding>, i: int) -> bool
    decreases bs.len() - i,
{
    if i < 0 || i >= bs.len() {
        true
    } else {
        absent(bs[i].chord, bs, i + 1) && distinct(bs, i + 1)
    }
}

/// Every layer that the bindings of `bs` from index `i` on open lies in `1..n`.
spec fn opens_within(bs: Seq<Binding>, i: int, n: int) -> bool
    decreases bs.len() - i,
{
    if i < 0 || i >= bs.len() {
        true
    } else {
        (match bs[i].action {
            Action::OpenLayer(k) => 1 <= k < n,
            _ => true,
        }) && opens_within(bs, i + 1, n)
    }
}

proof fn lemma_absent(c: Chord, bs: Seq<Binding>, i: int)
    requires
        0 <= i,
        absent(c, bs, i),
    ensures
        forall|j: int| i <= j < bs.len() ==> #[trigger] bs[j].chord != c,
    decreases bs.len() - i,
{
    if i < bs.len() {
        lemma_absent(c, bs, i + 1);
    }
}

proof fn lemma_distinct(bs: Seq<Binding>, i: int)
    requires
        0 <= i,
        distinct(bs, i),
    ensures
        forall|a: int, b: int| i <= a < bs.len() && i <= b < bs.len() && a != b
            ==> #[trigger] bs[a].chord != #[trigger] bs[b].chord,
    decreases bs.len() - i,
{
    if i < bs.len() {
        lemma_distinct(bs, i + 1);
        lemma_absent(bs[i].chord, bs, i + 1);
    }
}

proof fn lemma_opens_within(bs: Seq<Binding>, i: int, n: int)
    requires
        0 <= i,
        opens_within(bs, i, n),
    ensures
        forall|j: int| i <= j < bs.len() ==> match #[trigger] bs[j].action {
            Action::OpenLayer(k) => 1 <= k < n,
            _ => true,
        },
    decreases bs.len() - i,
{
    if i < bs.len() {
        lemma_opens_within(bs, i + 1, n);
    }
}

/// The authored layers are sound with Escape as the cancel chord.
#[verifier::rlimit(50)]
proof fn lemma_authored_ok(layers: Seq<Layer>)
    requires
        layers.len() == 3,
        layers[0].bindings@ == root_bindings(),
        layers[1].bindings@ == main_bindings(),
        layers[2].bindings@ == launch_bindings(),
    ensures
        layers_ok(layers, cancel_chord()),
{
    let r = root_bindings();
    let m = main_bindings();
    let l = launch_bindings();
    reveal_with_fuel(absent, 20);
    reveal_with_fuel(distinct, 20);
    reveal_with_fuel(opens_within, 20);
    assert(m.len() == 19);
    assert(distinct(r, 0) && distinct(m, 0) && distinct(l, 0));
    assert(absent(cancel_chord(), m, 0) && absent(cancel_chord(), l, 0));
    assert(opens_within(r, 0, 3) && opens_within(m, 0, 3) && opens_within(l, 0, 3));
    lemma_distinct(r, 0);
    lemma_distinct(m, 0);
    lemma_distinct(l, 0);
    lemma_absent(cancel_chord(), m, 0);
    lemma_absent(cancel_chord(), l, 0);
    lemma_opens_within(r, 0, 3);
    lemma_opens_within(m, 0, 3);
    lemma_opens_within(l, 0, 3);
    assert forall|i: int| 0 <= i < layers.len() implies #[trigger] crate::keymap::layer_ok(layers, cancel_chord(), i) by {
        if i == 1 {
            assert(!chords_of(m).contains(cancel_chord()));
        } else if i == 2 {
            assert(!chords_of(l).contains(cancel_chord()));
        }
    }
}

} // verus!
