use seat_config::{
    build_keymap, Action, Binding, Chord, ConfigError, Direction, Dispatcher, Effect, Key, Keymap,
    Layer, Program, SeatOp,
};
use std::collections::HashSet;

fn seat_after(seat: &HashSet<Chord>, ops: &[SeatOp]) -> HashSet<Chord> {
    let mut s = seat.clone();
    for op in ops {
        match op {
            SeatOp::Bind(c) => {
                s.insert(*c);
            }
            SeatOp::Unbind(c) => {
                s.remove(c);
            }
        }
    }
    s
}

fn set_of(chords: &[Chord]) -> HashSet<Chord> {
    chords.iter().copied().collect()
}

fn started() -> (Dispatcher, HashSet<Chord>) {
    let keymap = build_keymap().expect("the authored keymap is sound");
    let (d, ops) = Dispatcher::install(keymap);
    let seat = seat_after(&HashSet::new(), &ops);
    (d, seat)
}

fn press(d: &mut Dispatcher, seat: &mut HashSet<Chord>, c: Chord) -> Option<Action> {
    let r = d.press(c);
    *seat = seat_after(seat, &r.ops);
    assert_eq!(set_of(&d.installed_chords()), *seat);
    r.fired
}

fn root_set() -> HashSet<Chord> {
    set_of(&[Chord::plain(Key::F1)])
}

fn main_menu_set() -> HashSet<Chord> {
    let mut s = set_of(&[
        Chord::plain(Key::Q),
        Chord::plain(Key::W),
        Chord::plain(Key::F),
        Chord::plain(Key::N),
        Chord::plain(Key::E),
        Chord::plain(Key::U),
        Chord::plain(Key::I),
        Chord::plain(Key::D),
        Chord::plain(Key::L),
        Chord::plain(Key::Escape),
    ]);
    for k in [Key::B, Key::C, Key::S, Key::T, Key::M] {
        s.insert(Chord::plain(k));
        s.insert(Chord::shifted(k));
    }
    s
}

#[test]
fn install_binds_root_only() {
    let (d, seat) = started();
    assert_eq!(seat, root_set());
    assert_eq!(d.active_layer(), 0);
}

#[test]
fn leader_then_workspace_shows_it_and_restores_root() {
    let (mut d, mut seat) = started();
    assert_eq!(press(&mut d, &mut seat, Chord::plain(Key::F1)), Some(Action::OpenLayer(1)));
    assert_eq!(seat, main_menu_set());
    assert_eq!(
        press(&mut d, &mut seat, Chord::plain(Key::S)),
        Some(Action::Run(Effect::ShowWorkspace(3)))
    );
    assert_eq!(seat, root_set());
    assert_eq!(d.active_layer(), 0);
}

#[test]
fn leader_then_escape_cancels() {
    let (mut d, mut seat) = started();
    press(&mut d, &mut seat, Chord::plain(Key::F1));
    assert_eq!(press(&mut d, &mut seat, Chord::plain(Key::Escape)), Some(Action::Cancel));
    assert_eq!(seat, root_set());
    assert_eq!(d.active_layer(), 0);
}

#[test]
fn shifted_workspace_chord_moves_window() {
    let (mut d, mut seat) = started();
    press(&mut d, &mut seat, Chord::plain(Key::F1));
    assert_eq!(
        press(&mut d, &mut seat, Chord::shifted(Key::M)),
        Some(Action::Run(Effect::SetWorkspace(5)))
    );
    assert_eq!(seat, root_set());
}

#[test]
fn every_terminal_action_of_main_menu_restores_root() {
    let cases = [
        (Chord::plain(Key::Q), Effect::Quit),
        (Chord::plain(Key::W), Effect::Close),
        (Chord::plain(Key::F), Effect::ToggleFullscreen),
        (Chord::plain(Key::N), Effect::Focus(Direction::Left)),
        (Chord::plain(Key::E), Effect::Focus(Direction::Down)),
        (Chord::plain(Key::U), Effect::Focus(Direction::Up)),
        (Chord::plain(Key::I), Effect::Focus(Direction::Right)),
        (Chord::plain(Key::L), Effect::Launch(Program::PowerMenu)),
        (Chord::plain(Key::B), Effect::ShowWorkspace(1)),
        (Chord::shifted(Key::C), Effect::SetWorkspace(2)),
        (Chord::plain(Key::T), Effect::ShowWorkspace(4)),
    ];
    for (chord, effect) in cases {
        let (mut d, mut seat) = started();
        press(&mut d, &mut seat, Chord::plain(Key::F1));
        assert_eq!(press(&mut d, &mut seat, chord), Some(Action::Run(effect)));
        assert_eq!(seat, root_set());
        assert_eq!(d.active_layer(), 0);
    }
}

#[test]
fn launch_menu_replaces_main_menu() {
    let (mut d, mut seat) = started();
    press(&mut d, &mut seat, Chord::plain(Key::F1));
    assert_eq!(press(&mut d, &mut seat, Chord::plain(Key::D)), Some(Action::OpenLayer(2)));
    let expected = set_of(&[
        Chord::plain(Key::Return),
        Chord::plain(Key::B),
        Chord::plain(Key::D),
        Chord::plain(Key::Escape),
    ]);
    assert_eq!(seat, expected);
    assert!(!seat.contains(&Chord::plain(Key::F1)));
    assert!(!seat.contains(&Chord::shifted(Key::B)));
    assert_eq!(
        press(&mut d, &mut seat, Chord::plain(Key::B)),
        Some(Action::Run(Effect::Launch(Program::Browser)))
    );
    assert_eq!(seat, root_set());
}

#[test]
fn launch_menu_terminal_and_escape() {
    let (mut d, mut seat) = started();
    press(&mut d, &mut seat, Chord::plain(Key::F1));
    press(&mut d, &mut seat, Chord::plain(Key::D));
    assert_eq!(
        press(&mut d, &mut seat, Chord::plain(Key::Return)),
        Some(Action::Run(Effect::Launch(Program::Terminal)))
    );
    press(&mut d, &mut seat, Chord::plain(Key::F1));
    press(&mut d, &mut seat, Chord::plain(Key::D));
    assert_eq!(press(&mut d, &mut seat, Chord::plain(Key::Escape)), Some(Action::Cancel));
    assert_eq!(seat, root_set());
}

#[test]
fn unbound_chord_changes_nothing() {
    let (mut d, mut seat) = started();
    let r = d.press(Chord::plain(Key::Q));
    assert_eq!(r.fired, None);
    assert!(r.ops.is_empty());
    assert_eq!(d.active_layer(), 0);
    assert_eq!(press(&mut d, &mut seat, Chord::plain(Key::Escape)), None);
    assert_eq!(seat, root_set());
}

#[test]
fn reset_twice_is_reset_once() {
    let (mut d, mut seat) = started();
    press(&mut d, &mut seat, Chord::plain(Key::F1));
    let ops = d.reset();
    seat = seat_after(&seat, &ops);
    assert_eq!(seat, root_set());
    let again = d.reset();
    assert_eq!(seat_after(&seat, &again), seat);
    assert_eq!(d.active_layer(), 0);
}

#[test]
fn open_layer_binds_layer_and_cancel() {
    let (mut d, mut seat) = started();
    let ops = d.open_layer(2);
    seat = seat_after(&seat, &ops);
    assert_eq!(d.active_layer(), 2);
    assert_eq!(seat.len(), 4);
    assert!(seat.contains(&Chord::plain(Key::Escape)));
    assert!(!seat.contains(&Chord::plain(Key::F1)));
}

fn layer(bs: &[(Chord, Action)]) -> Layer {
    Layer { bindings: bs.iter().map(|(chord, action)| Binding { chord: *chord, action: *action }).collect() }
}

#[test]
fn keymap_without_layers_is_refused() {
    assert_eq!(Keymap::new(Vec::new(), Chord::plain(Key::Escape)).err(), Some(ConfigError::NoLayers));
}

#[test]
fn keymap_with_duplicate_chord_is_refused() {
    let layers = vec![
        layer(&[(Chord::plain(Key::F1), Action::OpenLayer(1))]),
        layer(&[
            (Chord::plain(Key::Q), Action::Run(Effect::Quit)),
            (Chord::plain(Key::Q), Action::Run(Effect::Close)),
        ]),
    ];
    assert_eq!(
        Keymap::new(layers, Chord::plain(Key::Escape)).err(),
        Some(ConfigError::DuplicateChord(1))
    );
}

#[test]
fn keymap_with_cancel_in_nested_layer_is_refused() {
    let layers = vec![
        layer(&[(Chord::plain(Key::F1), Action::OpenLayer(1))]),
        layer(&[(Chord::plain(Key::Escape), Action::Run(Effect::Quit))]),
    ];
    assert_eq!(
        Keymap::new(layers, Chord::plain(Key::Escape)).err(),
        Some(ConfigError::CancelCollision(1))
    );
}

#[test]
fn keymap_opening_missing_layer_is_refused() {
    let layers = vec![layer(&[(Chord::plain(Key::F1), Action::OpenLayer(1))])];
    assert_eq!(Keymap::new(layers, Chord::plain(Key::Escape)).err(), Some(ConfigError::BadTarget(0)));
    let layers = vec![
        layer(&[(Chord::plain(Key::F1), Action::OpenLayer(1))]),
        layer(&[(Chord::plain(Key::A), Action::OpenLayer(0))]),
    ];
    assert_eq!(Keymap::new(layers, Chord::plain(Key::Escape)).err(), Some(ConfigError::BadTarget(1)));
}

#[test]
fn shift_and_plain_chords_coexist_and_root_may_bind_cancel() {
    let layers = vec![
        layer(&[
            (Chord::plain(Key::Escape), Action::Run(Effect::Close)),
            (Chord::plain(Key::S), Action::Run(Effect::ShowWorkspace(1))),
            (Chord::shifted(Key::S), Action::Run(Effect::SetWorkspace(1))),
        ]),
    ];
    let keymap = Keymap::new(layers, Chord::plain(Key::Escape)).expect("sound keymap");
    let (mut d, _) = Dispatcher::install(keymap);
    assert_eq!(d.press(Chord::shifted(Key::S)).fired, Some(Action::Run(Effect::SetWorkspace(1))));
    assert_eq!(d.press(Chord::plain(Key::Escape)).fired, Some(Action::Run(Effect::Close)));
}
