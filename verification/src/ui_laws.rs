//! What holds of the user interface, whatever keys are pressed.
use crate::keys::{commands, Command, Key, KeyPress, ACTIONS};
use crate::ui::{
    theme_place, Effect, Flow, Overlay, SurroundingsView, UiView, FASTEST_TICK_MS, LEAST_SMOOTHING,
    MOST_SMOOTHING, SLOWEST_TICK_MS, TICK_STEP_MS,
};
use vstd::prelude::*;

verus! {

/// Every selection is on a row that exists.
pub open spec fn in_bounds(ui: UiView, env: SurroundingsView) -> bool {
    &&& ui.overlay is ThemePicker ==> ui.theme_selected < env.themes.len()
    &&& ui.overlay is GenrePicker ==> ui.genre_selected < env.genres
    &&& ui.settings_selected < ACTIONS
    &&& ui.settings_awaiting_key matches Some((row, _)) ==> row < ACTIONS
}

/// There is something to select: a theme, and a genre that is shown.
pub open spec fn furnished(env: SurroundingsView) -> bool {
    &&& 0 < env.themes.len() <= usize::MAX
    &&& env.genre < env.genres
}

proof fn lemma_theme_place(themes: Seq<Seq<char>>, name: Seq<char>, i: int)
    requires
        0 <= i,
        themes.len() > 0,
    ensures
        0 <= theme_place(themes, name, i) < themes.len(),
    decreases themes.len() - i,
{
    if i < themes.len() {
        lemma_theme_place(themes, name, i + 1);
    }
}

/// No key moves a selection off the rows that exist.
pub proof fn law_selections_stay_in_bounds(ui: UiView, env: SurroundingsView, key: KeyPress)
    requires
        in_bounds(ui, env),
        furnished(env),
    ensures
        in_bounds(ui.after_key(env, key).0, env),
{
    lemma_theme_place(env.themes, ui.theme, 0);
}

/// With every selection on a row that exists, every key has a meaning.
pub proof fn law_every_key_is_accepted(ui: UiView, env: SurroundingsView, key: KeyPress)
    requires
        in_bounds(ui, env),
        furnished(env),
        ui.tick_rate_ms + TICK_STEP_MS <= u64::MAX,
    ensures
        ui.accepts(env, key),
{
}

/// No key takes the tick rate out of its range.
pub proof fn law_tick_rate_stays_in_range(ui: UiView, env: SurroundingsView, key: KeyPress)
    requires
        FASTEST_TICK_MS <= ui.tick_rate_ms <= SLOWEST_TICK_MS,
    ensures
        FASTEST_TICK_MS <= ui.after_key(env, key).0.tick_rate_ms <= SLOWEST_TICK_MS,
{
}

/// No key takes the smoothing out of its range.
pub proof fn law_smoothing_stays_in_range(ui: UiView, env: SurroundingsView, key: KeyPress)
    requires
        LEAST_SMOOTHING <= ui.noise_reduction <= MOST_SMOOTHING,
    ensures
        LEAST_SMOOTHING <= ui.after_key(env, key).0.noise_reduction <= MOST_SMOOTHING,
{
}

/// Going slower and then faster leads back, except from the slowest rates.
pub proof fn law_slower_then_faster_leads_back(ui: UiView, env: SurroundingsView)
    requires
        FASTEST_TICK_MS <= ui.tick_rate_ms <= SLOWEST_TICK_MS - TICK_STEP_MS,
    ensures
        ui.after_command(env, Command::PerfTickSlower).after_command(env, Command::PerfTickFaster) == ui,
{
}

/// Only a key press counts: where a system reports the release of a key too,
/// that changes nothing and has nothing done.
pub proof fn law_release_does_nothing(ui: UiView, env: SurroundingsView, key: KeyPress)
    requires
        !key.pressed,
    ensures
        ui.after_key(env, key) == (ui, Flow::NextFrame, Seq::<Effect>::empty()),
{
}

/// The program ends only on a key that is bound to quitting, pressed while
/// stations are browsed; and on such a key it does.
pub proof fn law_only_the_quit_key_quits(ui: UiView, env: SurroundingsView, key: KeyPress)
    ensures
        ui.after_key(env, key).1 is Quit <==> {
            &&& key.pressed
            &&& ui.input_mode is Normal
            &&& ui.overlay is Hidden
            &&& ui.keybindings.quit.has(key.code)
        },
{
    let order = commands();
    assert(order[0] == Command::Quit);
    if ui.command_of(key.code) == Some(Command::Quit) {
        lemma_quit_is_first(ui, key.code, 0);
    }
}

proof fn lemma_quit_is_first(ui: UiView, key: Key, i: int)
    requires
        i >= 0,
        ui.keybindings.command_from(key, ui.show_perf, i) == Some(Command::Quit),
    ensures
        ui.keybindings.quit.has(key),
    decreases crate::keys::COMMANDS - i,
{
    if !ui.keybindings.calls_for(key, ui.show_perf, commands()[i]) {
        lemma_quit_is_first(ui, key, i + 1);
    }
}

/// Escape leaves any overlay, changing nothing else, unless the settings wait
/// for a key: then it takes that question back.
pub proof fn law_escape_leaves_an_overlay(ui: UiView, env: SurroundingsView, modifiers: u8)
    requires
        ui.input_mode is Normal,
        !(ui.overlay is Hidden),
    ensures
        ({
            let escape = KeyPress { code: Key::Esc, modifiers, pressed: true };
            let (after, flow, effects) = ui.after_key(env, escape);
            &&& flow is NextFrame
            &&& effects == Seq::<Effect>::empty()
            &&& after == if ui.overlay is Settings && ui.settings_awaiting_key is Some {
                UiView { settings_awaiting_key: None, ..ui }
            } else {
                UiView { overlay: Overlay::Hidden, ..ui }
            }
        }),
{
}

/// While an overlay is shown, the rest of the frame is skipped on every key.
pub proof fn law_overlay_keys_skip_the_frame(ui: UiView, env: SurroundingsView, key: KeyPress)
    requires
        ui.input_mode is Normal,
        !(ui.overlay is Hidden),
    ensures
        ui.after_key(env, key).1 is NextFrame,
{
}

/// Whatever key changes the bindings, the tick rate or the visualizer, the
/// settings are written to disk.
pub proof fn law_changes_are_saved(ui: UiView, env: SurroundingsView, key: KeyPress)
    ensures
        ({
            let (after, _, effects) = ui.after_key(env, key);
            after.keybindings != ui.keybindings || after.tick_rate_ms != ui.tick_rate_ms
                || after.visualizer_enabled != ui.visualizer_enabled ==> effects.contains(
                Effect::SaveConfig,
            )
        }),
{
    let (after, _, effects) = ui.after_key(env, key);
    if after.keybindings != ui.keybindings || after.tick_rate_ms != ui.tick_rate_ms
        || after.visualizer_enabled != ui.visualizer_enabled {
        assert(effects.last() == Effect::SaveConfig);
    }
}

/// The key that the settings waited for ends up where it was asked for: the
/// command has it, keeps its other key, and no other command is touched.
pub proof fn law_awaited_key_is_bound(
    ui: UiView,
    env: SurroundingsView,
    row: usize,
    alt: bool,
    key: KeyPress,
    other: Command,
)
    requires
        key.pressed,
        !(key.code is Esc),
        ui.input_mode is Normal,
        ui.overlay is Settings,
        ui.settings_awaiting_key == Some((row, alt)),
        row < ACTIONS,
    ensures
        ({
            let command = commands()[row as int];
            let before = ui.keybindings.of(command);
            let after = ui.after_key(env, key).0;
            let binding = after.keybindings.of(command);
            &&& after.settings_awaiting_key is None
            &&& binding.has(key.code)
            &&& alt ==> binding.alt == Some(key.code) && binding.primary == before.primary
            &&& !alt ==> binding.primary == key.code && binding.alt == before.alt
            &&& other != command ==> after.keybindings.of(other) == ui.keybindings.of(other)
        }),
{
    let command = commands()[row as int];
    assert(!(command is SmoothingDown || command is SmoothingUp)) by {
        lemma_actions_are_bindable(row);
    }
}

proof fn lemma_actions_are_bindable(row: usize)
    requires
        row < ACTIONS,
    ensures
        !(commands()[row as int] is SmoothingDown || commands()[row as int] is SmoothingUp),
{
    crate::keys::law_every_command_has_one_place(Command::SmoothingDown);
    crate::keys::law_every_command_has_one_place(Command::SmoothingUp);
    let order = commands();
    assert(order[22] == Command::SmoothingDown);
    assert(order[23] == Command::SmoothingUp);
}

/// In the search field, a character and then a backspace leave the query as it
/// was.
pub proof fn law_backspace_takes_a_character_back(ui: UiView, c: char)
    ensures
        ui.after_editing_key(Key::Char(c)).0.after_editing_key(Key::Backspace).0 == ui,
{
    assert(ui.search_query.push(c).drop_last() == ui.search_query);
}

/// While the query is edited, no key reaches a command: all it can have done is
/// the search itself.
pub proof fn law_typing_runs_no_command(ui: UiView, env: SurroundingsView, key: KeyPress)
    requires
        ui.input_mode is Editing,
        key.pressed,
    ensures
        ui.after_key(env, key).2 == if key.code is Enter {
            seq![Effect::Search]
        } else {
            Seq::empty()
        },
        ui.after_key(env, key).0 == (UiView {
            input_mode: ui.after_key(env, key).0.input_mode,
            search_query: ui.after_key(env, key).0.search_query,
            ..ui
        }),
{
}

} // verus!
