//! A modal keybinding dispatcher for a compositor seat, together with the
//! small pieces of desktop setup around it: the placement of two outputs side
//! by side and the text of a minute-resolution status clock.
mod config;
mod dispatch;
mod keymap;
mod keys;
mod outputs;
mod status;

pub use config::{
    bind_workspace, build_keymap, cancel_chord, launch_bindings, main_bindings, on, on_shift,
    root_bindings, workspace_bindings,
};
pub use dispatch::{
    lemma_cancel_returns_to_root, lemma_open_layer_replaces, lemma_reset_twice,
    lemma_terminal_press_restores_root, Dispatcher, Response,
};
pub use keymap::{find, layers_ok, targets_valid, unique_chords, ConfigError, Keymap};
pub use keys::{
    apply_op, apply_ops, chords_of, Action, Binding, Chord, Direction, Effect, Key, Layer,
    Program, SeatOp,
};
pub use outputs::{arrange_outputs, OutputState, Placement, Position};
pub use status::{
    current_status, days_in_month, digit, four_digits, is_leap, minute_pattern, minute_text,
    status_text, two_digits, WallMinute,
};
