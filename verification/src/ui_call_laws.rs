//! What each key comes to.
use crate::keys::{commands, Binding, Command, Key, KeyBindings, KeyPress};
use crate::ui::{theme_place, Effect, Flow, InputMode, Overlay, Surroundings, Ui, UiView};
use vstd::prelude::*;

verus! {

/// The contents of an interface are all that it holds, and so are those of its
/// surroundings.
pub proof fn law_the_views_leave_nothing_out(a: Ui, b: Ui, e: Surroundings, f: Surroundings)
    requires
        a@ == b@,
        e@ == f@,
    ensures
        a.input_mode == b.input_mode,
        a.overlay == b.overlay,
        a.keybindings == b.keybindings,
        a.theme@ == b.theme@,
        a.theme_selected == b.theme_selected,
        a.genre_selected == b.genre_selected,
        a.settings_selected == b.settings_selected,
        a.settings_awaiting_key == b.settings_awaiting_key,
        a.visualizer_enabled == b.visualizer_enabled,
        a.tick_rate_ms == b.tick_rate_ms,
        a.show_perf == b.show_perf,
        a.noise_reduction == b.noise_reduction,
        a.search_query@ == b.search_query@,
        e.themes@.len() == f.themes@.len(),
        forall|i: int| 0 <= i < e.themes@.len() ==> #[trigger] e.themes@[i]@ == f.themes@[i]@,
        e.genres == f.genres,
        e.genre == f.genre,
        e.playing == f.playing,
        e.default_bindings == f.default_bindings,
{
    assert(a@.theme == b@.theme && a@.search_query == b@.search_query);
    let (names_e, names_f) = (e@.themes, f@.themes);
    assert(names_e.len() == e.themes@.len() && names_f.len() == f.themes@.len());
    assert forall|i: int| 0 <= i < e.themes@.len() implies #[trigger] e.themes@[i]@ == f.themes@[i]@ by {
        assert(names_e[i] == e.themes@[i]@ && names_f[i] == f.themes@[i]@);
    }
}

/// The interface starts with the stations, nothing selected or searched, the
/// profiler hidden, and what was configured. With the visualizer off it ticks
/// every 200 ms.
pub proof fn law_a_new_interface_shows_the_stations(
    keybindings: KeyBindings,
    theme: String,
    visualizer_enabled: bool,
    tick_rate_ms: u64,
    noise_reduction: u32,
    ui: Ui,
)
    requires
        call_ensures(Ui::new, (keybindings, theme, visualizer_enabled, tick_rate_ms, noise_reduction), ui),
    ensures
        ui.input_mode is Normal,
        ui.overlay is Hidden,
        ui.keybindings == keybindings,
        ui.theme@ == theme@,
        ui.theme_selected == 0 && ui.genre_selected == 0 && ui.settings_selected == 0,
        ui.settings_awaiting_key is None,
        ui.visualizer_enabled == visualizer_enabled,
        visualizer_enabled ==> ui.tick_rate_ms == tick_rate_ms,
        !visualizer_enabled ==> ui.tick_rate_ms == 200,
        !ui.show_perf,
        ui.noise_reduction == noise_reduction,
        ui.search_query@.len() == 0,
{
    assert(ui@.search_query.len() == 0);
    assert(ui@.keybindings == ui.keybindings);
}

/// The release of a key does nothing.
pub proof fn law_only_presses_count(ui: &mut Ui, env: &Surroundings, key: KeyPress, outcome: (Flow, Vec<Effect>))
    requires
        call_ensures(Ui::handle_key, (ui, env, key), outcome),
        !key.pressed,
    ensures
        final(ui)@ == old(ui)@,
        outcome.0 is NextFrame,
        outcome.1@.len() == 0,
{
}

/// While the query is edited, a character goes to its end, backspace takes its
/// last one off, escape leaves the field, and so does enter, to search for the
/// query as it is. No other key does anything.
pub proof fn law_editing_the_query(ui: &mut Ui, env: &Surroundings, key: KeyPress, outcome: (Flow, Vec<Effect>))
    requires
        call_ensures(Ui::handle_key, (ui, env, key), outcome),
        key.pressed,
        old(ui).input_mode is Editing,
    ensures
        outcome.0 is Proceed,
        key.code matches Key::Char(c) ==> final(ui)@ == (UiView {
            search_query: old(ui).search_query@.push(c),
            ..old(ui)@
        }),
        key.code is Backspace ==> final(ui)@ == (UiView { search_query: final(ui).search_query@, ..old(ui)@ }),
        key.code is Backspace && old(ui).search_query@.len() > 0 ==> final(ui).search_query@.push(
            old(ui).search_query@.last(),
        ) == old(ui).search_query@,
        key.code is Backspace && old(ui).search_query@.len() == 0 ==> final(ui).search_query@.len() == 0,
        key.code is Enter || key.code is Esc ==> final(ui)@ == (UiView {
            input_mode: InputMode::Normal,
            ..old(ui)@
        }),
        !(key.code is Char || key.code is Backspace || key.code is Enter || key.code is Esc) ==> final(ui)@ == old(ui)@,
        key.code is Enter ==> outcome.1@ == seq![Effect::Search],
        !(key.code is Enter) ==> outcome.1@.len() == 0,
{
    assert(final(ui)@.search_query == final(ui).search_query@);
    if key.code is Backspace && old(ui).search_query@.len() > 0 {
        let query = old(ui).search_query@;
        assert(query.drop_last().push(query.last()) =~= query);
    }
}

/// In the theme picker, escape and the keys of the picker itself close it.
/// Otherwise up and down (or `k` and `j`) go to the theme before and behind, if
/// there is one, and show it at once; enter settles on the theme of the selected
/// row, saves that, and closes the picker. No other key does anything.
pub proof fn law_picking_a_theme(ui: &mut Ui, env: &Surroundings, key: KeyPress, outcome: (Flow, Vec<Effect>))
    requires
        call_ensures(Ui::handle_key, (ui, env, key), outcome),
        key.pressed,
        old(ui).input_mode is Normal,
        old(ui).overlay is ThemePicker,
    ensures
        outcome.0 is NextFrame,
        ({
            let row = old(ui).theme_selected as int;
            let own = old(ui).keybindings.theme_picker;
            let closes = key.code is Esc || own.primary == key.code || own.alt == Some(key.code);
            let up = key.code is Up || key.code == Key::Char('k');
            let down = key.code is Down || key.code == Key::Char('j');
            &&& closes ==> final(ui)@ == (UiView { overlay: Overlay::Hidden, ..old(ui)@ }) && outcome.1@.len() == 0
            &&& !closes && up && 0 < row <= env.themes@.len() ==> {
                &&& final(ui)@ == (UiView {
                    theme_selected: (row - 1) as usize,
                    theme: env.themes@[row - 1]@,
                    ..old(ui)@
                })
                &&& outcome.1@.len() == 0
            }
            &&& !closes && down && row + 1 < env.themes@.len() ==> {
                &&& final(ui)@ == (UiView {
                    theme_selected: (row + 1) as usize,
                    theme: env.themes@[row + 1]@,
                    ..old(ui)@
                })
                &&& outcome.1@.len() == 0
            }
            &&& !closes && (up && row == 0 || down && row + 1 >= env.themes@.len()) ==> final(ui)@ == old(ui)@
                && outcome.1@.len() == 0
            &&& !closes && key.code is Enter && row < env.themes@.len() ==> {
                &&& final(ui)@ == (UiView { overlay: Overlay::Hidden, theme: env.themes@[row]@, ..old(ui)@ })
                &&& outcome.1@ == seq![Effect::SaveConfig]
            }
            &&& !closes && !up && !down && !(key.code is Enter) ==> final(ui)@ == old(ui)@ && outcome.1@.len() == 0
        }),
{
    let names = env@.themes;
    assert(names.len() == env.themes@.len());
    assert forall|i: int| 0 <= i < names.len() implies #[trigger] names[i] == env.themes@[i]@ by {}
    let row = old(ui).theme_selected as int;
    assert(row > 0 && row <= names.len() ==> names[row - 1] == env.themes@[row - 1]@);
}

/// In the genre picker, escape and the keys of the picker itself close it.
/// Otherwise up and down (or `k` and `j`) go to the row before and behind, if
/// there is one; enter closes the picker and has exactly one effect, which
/// selects the row that was selected before. No other key does anything.
pub proof fn law_picking_a_genre(ui: &mut Ui, env: &Surroundings, key: KeyPress, outcome: (Flow, Vec<Effect>))
    requires
        call_ensures(Ui::handle_key, (ui, env, key), outcome),
        key.pressed,
        old(ui).input_mode is Normal,
        old(ui).overlay is GenrePicker,
    ensures
        outcome.0 is NextFrame,
        ({
            let row = old(ui).genre_selected as int;
            let own = old(ui).keybindings.genre_picker;
            let closes = key.code is Esc || own.primary == key.code || own.alt == Some(key.code);
            let up = key.code is Up || key.code == Key::Char('k');
            let down = key.code is Down || key.code == Key::Char('j');
            &&& closes ==> final(ui)@ == (UiView { overlay: Overlay::Hidden, ..old(ui)@ }) && outcome.1@.len() == 0
            &&& !closes && up && row > 0 ==> final(ui)@ == (UiView { genre_selected: (row - 1) as usize, ..old(ui)@ })
                && outcome.1@.len() == 0
            &&& !closes && down && row + 1 < env.genres ==> final(ui)@ == (UiView {
                genre_selected: (row + 1) as usize,
                ..old(ui)@
            }) && outcome.1@.len() == 0
            &&& !closes && (up && row == 0 || down && row + 1 >= env.genres) ==> final(ui)@ == old(ui)@
                && outcome.1@.len() == 0
            &&& !closes && key.code is Enter ==> final(ui)@ == (UiView { overlay: Overlay::Hidden, ..old(ui)@ })
                && outcome.1@ == seq![Effect::SelectGenre(old(ui).genre_selected)]
            &&& !closes && !up && !down && !(key.code is Enter) ==> final(ui)@ == old(ui)@ && outcome.1@.len() == 0
        }),
{
}

/// The help and the details of a station are closed by escape and by the keys of
/// either, and left alone by any other key.
pub proof fn law_closing_the_help(ui: &mut Ui, env: &Surroundings, key: KeyPress, outcome: (Flow, Vec<Effect>))
    requires
        call_ensures(Ui::handle_key, (ui, env, key), outcome),
        key.pressed,
        old(ui).input_mode is Normal,
        old(ui).overlay is Help || old(ui).overlay is StationDetail,
    ensures
        outcome.0 is NextFrame,
        outcome.1@.len() == 0,
        ({
            let help = old(ui).keybindings.help;
            let detail = old(ui).keybindings.station_detail;
            let closes = key.code is Esc || help.primary == key.code || help.alt == Some(key.code) || detail.primary
                == key.code || detail.alt == Some(key.code);
            &&& closes ==> final(ui)@ == (UiView { overlay: Overlay::Hidden, ..old(ui)@ })
            &&& !closes ==> final(ui)@ == old(ui)@
        }),
{
}

/// In the settings, escape and `S` close them; up and down (or `k` and `j`) move
/// over the 22 rows; enter asks for a new primary key of the selected row and `a`
/// for a new alternative key. None of these changes a binding.
pub proof fn law_moving_in_the_settings(ui: &mut Ui, env: &Surroundings, key: KeyPress, outcome: (Flow, Vec<Effect>))
    requires
        call_ensures(Ui::handle_key, (ui, env, key), outcome),
        key.pressed,
        old(ui).input_mode is Normal,
        old(ui).overlay is Settings,
        old(ui).settings_awaiting_key is None,
        key.code != Key::Char('d') && key.code != Key::Char('r') && key.code != Key::Char('R'),
    ensures
        outcome.0 is NextFrame,
        outcome.1@.len() == 0,
        ({
            let row = old(ui).settings_selected as int;
            let up = key.code is Up || key.code == Key::Char('k');
            let down = key.code is Down || key.code == Key::Char('j');
            let closes = key.code is Esc || key.code == Key::Char('S');
            &&& closes ==> final(ui)@ == (UiView { overlay: Overlay::Hidden, ..old(ui)@ })
            &&& up && row > 0 ==> final(ui)@ == (UiView { settings_selected: (row - 1) as usize, ..old(ui)@ })
            &&& down && row < 21 ==> final(ui)@ == (UiView { settings_selected: (row + 1) as usize, ..old(ui)@ })
            &&& up && row == 0 || down && row >= 21 ==> final(ui)@ == old(ui)@
            &&& key.code is Enter ==> final(ui)@ == (UiView {
                settings_awaiting_key: Some((old(ui).settings_selected, false)),
                ..old(ui)@
            })
            &&& key.code == Key::Char('a') ==> final(ui)@ == (UiView {
                settings_awaiting_key: Some((old(ui).settings_selected, true)),
                ..old(ui)@
            })
            &&& !closes && !up && !down && !(key.code is Enter) && key.code != Key::Char('a') ==> final(ui)@ == old(
                ui)@
        }),
{
}

/// In the settings, `d` takes the alternative key from the command in the
/// selected row, `r` gives it the keys that it came with, and `R` gives all
/// commands those. Each is saved, no other binding changes, and nothing else.
pub proof fn law_changing_the_bindings(
    ui: &mut Ui,
    env: &Surroundings,
    key: KeyPress,
    outcome: (Flow, Vec<Effect>),
    command: Command,
    other: Command,
)
    requires
        call_ensures(Ui::handle_key, (ui, env, key), outcome),
        call_ensures(
            KeyBindings::key_at_index,
            (&old(ui).keybindings, old(ui).settings_selected),
            Some(command),
        ),
        key.pressed,
        old(ui).input_mode is Normal,
        old(ui).overlay is Settings,
        old(ui).settings_awaiting_key is None,
        key.code == Key::Char('d') || key.code == Key::Char('r') || key.code == Key::Char('R'),
    ensures
        outcome.0 is NextFrame,
        outcome.1@ == seq![Effect::SaveConfig],
        final(ui)@ == (UiView { keybindings: final(ui).keybindings, ..old(ui)@ }),
        key.code == Key::Char('d') ==> {
            &&& final(ui).keybindings.of(command).primary == old(ui).keybindings.of(command).primary
            &&& final(ui).keybindings.of(command).alt is None
        },
        key.code == Key::Char('r') ==> final(ui).keybindings.of(command) == env.default_bindings.of(command),
        key.code != Key::Char('R') && other != command ==> final(ui).keybindings.of(other) == old(ui).keybindings.of(
            other,
        ),
        key.code == Key::Char('R') ==> final(ui).keybindings == env.default_bindings,
{
    assert(final(ui)@.keybindings == final(ui).keybindings);
    lemma_rows_can_be_bound(&old(ui).keybindings, old(ui).settings_selected, command);
}

proof fn lemma_rows_can_be_bound(bindings: &KeyBindings, row: usize, command: Command)
    requires
        call_ensures(KeyBindings::key_at_index, (bindings, row), Some(command)),
    ensures
        row < 22,
        command == commands()[row as int],
        !(command is SmoothingDown || command is SmoothingUp),
{
    crate::keys::law_rows_of_the_settings(bindings, row, Some(command));
}

/// Behind the rows of the settings there is nothing to take a key from or to
/// reset.
pub proof fn law_no_row_no_change(ui: &mut Ui, env: &Surroundings, key: KeyPress, outcome: (Flow, Vec<Effect>))
    requires
        call_ensures(Ui::handle_key, (ui, env, key), outcome),
        key.pressed,
        old(ui).input_mode is Normal,
        old(ui).overlay is Settings,
        old(ui).settings_awaiting_key is None,
        old(ui).settings_selected >= 22,
        key.code == Key::Char('d') || key.code == Key::Char('r'),
    ensures
        final(ui)@ == old(ui)@,
        outcome.1@.len() == 0,
{
}

/// The key that the settings wait for goes to the command in that row, as its
/// primary or as its alternative key; the other key of that command and all
/// other commands keep theirs, and the change is saved. Escape, or a row that
/// does not exist, takes the question back and changes nothing.
pub proof fn law_setting_a_key(
    ui: &mut Ui,
    env: &Surroundings,
    key: KeyPress,
    outcome: (Flow, Vec<Effect>),
    row: usize,
    alt: bool,
    command: Option<Command>,
    other: Command,
)
    requires
        call_ensures(Ui::handle_key, (ui, env, key), outcome),
        call_ensures(KeyBindings::key_at_index, (&old(ui).keybindings, row), command),
        key.pressed,
        old(ui).input_mode is Normal,
        old(ui).overlay is Settings,
        old(ui).settings_awaiting_key == Some((row, alt)),
    ensures
        outcome.0 is NextFrame,
        final(ui)@ == (UiView {
            settings_awaiting_key: None,
            keybindings: final(ui).keybindings,
            ..old(ui)@
        }),
        key.code is Esc || command is None ==> final(ui).keybindings == old(ui).keybindings && outcome.1@.len() == 0,
        command matches Some(command) ==> !(key.code is Esc) ==> {
            let before = old(ui).keybindings.of(command);
            let after = final(ui).keybindings.of(command);
            &&& outcome.1@ == seq![Effect::SaveConfig]
            &&& alt ==> after.primary == before.primary && after.alt == Some(key.code)
            &&& !alt ==> after.primary == key.code && after.alt == before.alt
            &&& other != command ==> final(ui).keybindings.of(other) == old(ui).keybindings.of(other)
        },
{
    assert(final(ui)@.keybindings == final(ui).keybindings);
    if let Some(command) = command {
        lemma_rows_can_be_bound(&old(ui).keybindings, row, command);
    }
}

/// While stations are browsed, the quit keys end the program, a key that is
/// bound to nothing does nothing, and the commands that are carried out elsewhere
/// have one effect each and change nothing here. The volume goes in steps of
/// five.
pub proof fn law_commands_carried_out_elsewhere(
    ui: &mut Ui,
    env: &Surroundings,
    key: KeyPress,
    outcome: (Flow, Vec<Effect>),
    command: Option<Command>,
)
    requires
        call_ensures(Ui::handle_key, (ui, env, key), outcome),
        call_ensures(
            KeyBindings::command_for,
            (&old(ui).keybindings, key.code, old(ui).show_perf),
            command,
        ),
        key.pressed,
        old(ui).input_mode is Normal,
        old(ui).overlay is Hidden,
    ensures
        outcome.0 is Quit <==> command == Some(Command::Quit),
        command != Some(Command::Quit) ==> outcome.0 is Proceed,
        command is None || command == Some(Command::Quit) ==> final(ui)@ == old(ui)@ && outcome.1@.len() == 0,
        ({
            let only = |wanted: Command, effect: Effect|
                command == Some(wanted) ==> final(ui)@ == old(ui)@ && outcome.1@ == seq![effect];
            &&& only(Command::Stop, Effect::Stop)
            &&& only(Command::ToggleFavorite, Effect::ToggleFavorite)
            &&& only(Command::VolumeUp, Effect::ChangeVolume(5))
            &&& only(Command::VolumeDown, Effect::ChangeVolume((-5) as i32))
            &&& only(Command::NavigateDown, Effect::Next)
            &&& only(Command::NavigateUp, Effect::Previous)
            &&& only(Command::Play, Effect::Play)
            &&& only(Command::GenrePrev, Effect::PreviousGenre)
            &&& only(Command::GenreNext, Effect::NextGenre)
            &&& only(Command::LoadMore, Effect::LoadMore)
            &&& key.modifiers % 2 == 1 ==> only(Command::CyclePanel, Effect::NextGenre)
            &&& key.modifiers % 2 == 0 ==> only(Command::CyclePanel, Effect::CyclePanel)
        }),
{
}

/// The commands that open an overlay or the search field do that and have
/// nothing done elsewhere. The settings open without a question, the genre
/// picker on the genre that is shown, the theme picker on the first theme with
/// the name of the one shown or on the first of all, and the search with an
/// empty query.
pub proof fn law_opening_an_overlay(
    ui: &mut Ui,
    env: &Surroundings,
    key: KeyPress,
    outcome: (Flow, Vec<Effect>),
    command: Command,
    i: int,
)
    requires
        call_ensures(Ui::handle_key, (ui, env, key), outcome),
        call_ensures(
            KeyBindings::command_for,
            (&old(ui).keybindings, key.code, old(ui).show_perf),
            Some(command),
        ),
        key.pressed,
        old(ui).input_mode is Normal,
        old(ui).overlay is Hidden,
        command is Help || command is StationDetail || command is Settings || command is GenrePicker
            || command is ThemePicker || command is Search || command is PerfToggle,
    ensures
        outcome.1@.len() == 0,
        command is Help ==> final(ui)@ == (UiView { overlay: Overlay::Help, ..old(ui)@ }),
        command is StationDetail ==> final(ui)@ == (UiView { overlay: Overlay::StationDetail, ..old(ui)@ }),
        command is Settings ==> final(ui)@ == (UiView {
            overlay: Overlay::Settings,
            settings_awaiting_key: None,
            ..old(ui)@
        }),
        command is GenrePicker ==> final(ui)@ == (UiView {
            overlay: Overlay::GenrePicker,
            genre_selected: env.genre,
            ..old(ui)@
        }),
        command is ThemePicker ==> final(ui)@ == (UiView {
            overlay: Overlay::ThemePicker,
            theme_selected: final(ui).theme_selected,
            ..old(ui)@
        }),
        command is ThemePicker && 0 <= i < env.themes.len() && env.themes@[i]@ == old(ui).theme@ && (forall|j: int|
            0 <= j < i ==> #[trigger] env.themes@[j]@ != old(ui).theme@) ==> final(ui).theme_selected == i,
        command is ThemePicker && (forall|j: int|
            0 <= j < env.themes@.len() ==> #[trigger] env.themes@[j]@ != old(ui).theme@) ==> final(ui).theme_selected
            == 0,
        command is Search ==> final(ui)@ == (UiView {
            input_mode: InputMode::Editing,
            search_query: Seq::empty(),
            ..old(ui)@
        }),
        command is PerfToggle ==> final(ui)@ == (UiView { show_perf: !old(ui).show_perf, ..old(ui)@ }),
{
    let names = env@.themes;
    let name = old(ui).theme@;
    assert(names.len() == env.themes@.len());
    assert forall|j: int| 0 <= j < names.len() implies #[trigger] names[j] == env.themes@[j]@ by {}
    assert(final(ui)@.theme_selected == final(ui).theme_selected);
    if command is ThemePicker && 0 <= i < names.len() && names[i] == name && (forall|j: int|
        0 <= j < i ==> #[trigger] env.themes@[j]@ != name) {
        assert forall|j: int| 0 <= j < i implies #[trigger] names[j] != name by {
            assert(env.themes@[j]@ != name);
        }
        lemma_theme_place(names, name, 0, i);
    }
    if command is ThemePicker && (forall|j: int| 0 <= j < env.themes@.len() ==> #[trigger] env.themes@[j]@ != name) {
        assert forall|j: int| 0 <= j < names.len() implies #[trigger] names[j] != name by {
            assert(env.themes@[j]@ != name);
        }
        lemma_theme_place(names, name, 0, names.len() as int);
    }
}

proof fn lemma_theme_place(themes: Seq<Seq<char>>, name: Seq<char>, from: int, i: int)
    requires
        0 <= from <= i <= themes.len(),
        i < themes.len() ==> themes[i] == name,
        forall|j: int| from <= j < i ==> #[trigger] themes[j] != name,
    ensures
        theme_place(themes, name, from) == (if i < themes.len() {
            i
        } else {
            0
        }),
    decreases i - from,
{
    if from < i {
        lemma_theme_place(themes, name, from + 1, i);
    }
}

/// Switching the visualizer off tells the player, ends the capture, slows the
/// ticks down to one in 200 ms and is saved. Switching it on tells the player,
/// has the configured tick rate loaded, captures again if something plays, and is
/// saved. Nothing else changes.
pub proof fn law_switching_the_visualizer(
    ui: &mut Ui,
    env: &Surroundings,
    key: KeyPress,
    outcome: (Flow, Vec<Effect>),
)
    requires
        call_ensures(Ui::handle_key, (ui, env, key), outcome),
        call_ensures(
            KeyBindings::command_for,
            (&old(ui).keybindings, key.code, old(ui).show_perf),
            Some(Command::VisualizerToggle),
        ),
        key.pressed,
        old(ui).input_mode is Normal,
        old(ui).overlay is Hidden,
    ensures
        old(ui).visualizer_enabled ==> {
            &&& final(ui)@ == (UiView { visualizer_enabled: false, tick_rate_ms: 200, ..old(ui)@ })
            &&& outcome.1@ == seq![Effect::SetVisualizer(false), Effect::StopCapture, Effect::SaveConfig]
        },
        !old(ui).visualizer_enabled ==> {
            &&& final(ui)@ == (UiView { visualizer_enabled: true, ..old(ui)@ })
            &&& env.playing ==> outcome.1@ == seq![
                Effect::SetVisualizer(true),
                Effect::LoadTickRate,
                Effect::RestartCapture,
                Effect::SaveConfig,
            ]
            &&& !env.playing ==> outcome.1@ == seq![
                Effect::SetVisualizer(true),
                Effect::LoadTickRate,
                Effect::SaveConfig,
            ]
        },
{
}

/// The tick rate and the smoothing go in steps of 10 ms and of 5 hundredths,
/// within 10 and 200 ms and within 5 and 95 hundredths: a step that would lead
/// out of the range leads to its end. The tick rate is saved, the smoothing is
/// not, and nothing else changes.
pub proof fn law_tuning_the_profiler(
    ui: &mut Ui,
    env: &Surroundings,
    key: KeyPress,
    outcome: (Flow, Vec<Effect>),
    command: Command,
)
    requires
        call_ensures(Ui::handle_key, (ui, env, key), outcome),
        call_ensures(
            KeyBindings::command_for,
            (&old(ui).keybindings, key.code, old(ui).show_perf),
            Some(command),
        ),
        key.pressed,
        old(ui).input_mode is Normal,
        old(ui).overlay is Hidden,
        command is PerfTickSlower ==> old(ui).tick_rate_ms + 10 <= u64::MAX,
    ensures
        ({
            let rate = old(ui).tick_rate_ms;
            let smoothing = old(ui).noise_reduction;
            let ticks = command is PerfTickSlower || command is PerfTickFaster;
            let smooths = command is SmoothingDown || command is SmoothingUp;
            &&& command is PerfTickSlower && rate <= 190 ==> final(ui).tick_rate_ms == rate + 10
            &&& command is PerfTickSlower && rate > 190 ==> final(ui).tick_rate_ms == 200
            &&& command is PerfTickFaster && rate >= 20 ==> final(ui).tick_rate_ms == rate - 10
            &&& command is PerfTickFaster && rate < 20 ==> final(ui).tick_rate_ms == 10
            &&& command is SmoothingDown && smoothing >= 10 ==> final(ui).noise_reduction == smoothing - 5
            &&& command is SmoothingDown && smoothing < 10 ==> final(ui).noise_reduction == 5
            &&& command is SmoothingUp && smoothing <= 90 ==> final(ui).noise_reduction == smoothing + 5
            &&& command is SmoothingUp && smoothing > 90 ==> final(ui).noise_reduction == 95
            &&& ticks ==> outcome.1@ == seq![Effect::SaveConfig] && final(ui)@ == (UiView {
                tick_rate_ms: final(ui).tick_rate_ms,
                ..old(ui)@
            })
            &&& smooths ==> outcome.1@.len() == 0 && final(ui)@ == (UiView {
                noise_reduction: final(ui).noise_reduction,
                ..old(ui)@
            })
        }),
{
    assert(final(ui)@.tick_rate_ms == final(ui).tick_rate_ms);
    assert(final(ui)@.noise_reduction == final(ui).noise_reduction);
}

/// The only keys that cannot be taken in are those that would go to a theme or
/// to a genre where there is none, or count the tick rate beyond what it can be.
pub proof fn law_which_keys_can_be_taken(ui: &Ui, env: &Surroundings, key: KeyPress, yes: bool, command: Option<Command>)
    requires
        call_ensures(Ui::can_take, (ui, env, key), yes),
        call_ensures(KeyBindings::command_for, (&ui.keybindings, key.code, ui.show_perf), command),
    ensures
        ({
            let up = key.code is Up || key.code == Key::Char('k');
            let down = key.code is Down || key.code == Key::Char('j');
            let themes = env.themes@.len();
            let closes = |own: Binding| key.code is Esc || own.primary == key.code || own.alt == Some(key.code);
            !yes <==> key.pressed && ui.input_mode is Normal && {
                ||| ui.overlay is ThemePicker && !closes(ui.keybindings.theme_picker) && (up && ui.theme_selected
                    > themes || down && themes == 0 || key.code is Enter && ui.theme_selected >= themes)
                ||| ui.overlay is GenrePicker && !closes(ui.keybindings.genre_picker) && down && env.genres == 0
                ||| ui.overlay is Hidden && command == Some(Command::PerfTickSlower) && ui.tick_rate_ms + 10
                    > u64::MAX
            }
        }),
{
    assert(env@.themes.len() == env.themes@.len());
}

/// Every key that can be taken may be handled.
pub proof fn law_what_can_be_taken_may_be_handled(ui: &mut Ui, env: &Surroundings, key: KeyPress, yes: bool)
    requires
        call_ensures(Ui::can_take, (&*old(ui), env, key), yes),
    ensures
        call_requires(Ui::can_take, (&*old(ui), env, key)),
        yes ==> call_requires(Ui::handle_key, (ui, env, key)),
{
}

/// An interface can be made with any bindings, theme, tick rate and smoothing.
pub proof fn law_any_interface_can_be_made(
    keybindings: KeyBindings,
    theme: String,
    visualizer_enabled: bool,
    tick_rate_ms: u64,
    noise_reduction: u32,
)
    ensures
        call_requires(Ui::new, (keybindings, theme, visualizer_enabled, tick_rate_ms, noise_reduction)),
{
}

} // verus!
