use aethertune::keys::{Binding, Command, Key, KeyBindings, KeyPress};
use aethertune::ui::{Effect, Flow, InputMode, Overlay, Surroundings, Ui};

fn key(c: char) -> Binding {
    Binding { primary: Key::Char(c), alt: None }
}

fn bindings() -> KeyBindings {
    KeyBindings {
        quit: Binding { primary: Key::Char('q'), alt: Some(Key::Esc) },
        help: key('?'),
        station_detail: key('i'),
        settings: key('S'),
        genre_picker: key('g'),
        theme_picker: key('t'),
        visualizer_toggle: key('v'),
        search: key('/'),
        stop: key('s'),
        toggle_favorite: key('f'),
        volume_up: key('+'),
        volume_down: key('-'),
        navigate_down: Binding { primary: Key::Down, alt: Some(Key::Char('j')) },
        navigate_up: Binding { primary: Key::Up, alt: Some(Key::Char('k')) },
        play: Binding { primary: Key::Enter, alt: None },
        cycle_panel: Binding { primary: Key::Other(1), alt: None },
        genre_prev: key('['),
        genre_next: key(']'),
        load_more: key('m'),
        perf_toggle: key('p'),
        perf_tick_slower: key('<'),
        perf_tick_faster: key('>'),
    }
}

fn surroundings() -> Surroundings {
    Surroundings {
        themes: vec!["dark".to_string(), "light".to_string(), "amber".to_string()],
        genres: 3,
        genre: 1,
        playing: false,
        default_bindings: bindings(),
    }
}

fn ui() -> Ui {
    Ui::new(bindings(), "light".to_string(), true, 50, 77)
}

fn press(ui: &mut Ui, code: Key) -> (Flow, Vec<Effect>) {
    ui.handle_key(&surroundings(), KeyPress { code, modifiers: 0, pressed: true })
}

fn type_key(ui: &mut Ui, c: char) -> (Flow, Vec<Effect>) {
    press(ui, Key::Char(c))
}

#[test]
fn low_power_without_the_visualizer() {
    assert_eq!(Ui::new(bindings(), "dark".to_string(), false, 50, 77).tick_rate_ms, 200);
    assert_eq!(Ui::new(bindings(), "dark".to_string(), true, 50, 77).tick_rate_ms, 50);
}

#[test]
fn releases_do_nothing() {
    let mut ui = ui();
    let release = KeyPress { code: Key::Char('q'), modifiers: 0, pressed: false };
    assert_eq!(ui.handle_key(&surroundings(), release), (Flow::NextFrame, vec![]));
    assert_eq!(ui.overlay, Overlay::Hidden);
}

#[test]
fn simple_commands() {
    for (code, effect) in [
        (Key::Char('s'), Effect::Stop),
        (Key::Char('f'), Effect::ToggleFavorite),
        (Key::Char('+'), Effect::ChangeVolume(5)),
        (Key::Char('-'), Effect::ChangeVolume(-5)),
        (Key::Down, Effect::Next),
        (Key::Char('j'), Effect::Next),
        (Key::Up, Effect::Previous),
        (Key::Enter, Effect::Play),
        (Key::Other(1), Effect::CyclePanel),
        (Key::BackTab, Effect::PreviousGenre),
        (Key::Char('['), Effect::PreviousGenre),
        (Key::Char(']'), Effect::NextGenre),
        (Key::Char('m'), Effect::LoadMore),
    ] {
        assert_eq!(press(&mut ui(), code), (Flow::Proceed, vec![effect]));
    }
    assert_eq!(press(&mut ui(), Key::Other(99)), (Flow::Proceed, vec![]));
}

#[test]
fn shift_turns_panels_into_genres() {
    for modifiers in 0..=255u8 {
        let cycle = KeyPress { code: Key::Other(1), modifiers, pressed: true };
        let expected = if modifiers & 1 == 1 { Effect::NextGenre } else { Effect::CyclePanel };
        assert_eq!(ui().handle_key(&surroundings(), cycle), (Flow::Proceed, vec![expected]));
    }
    let shift = crossterm::event::KeyModifiers::SHIFT | crossterm::event::KeyModifiers::ALT;
    let cycle = KeyPress { code: Key::Other(1), modifiers: shift.bits(), pressed: true };
    assert_eq!(ui().handle_key(&surroundings(), cycle).1, vec![Effect::NextGenre]);
}

#[test]
fn only_the_quit_key_quits() {
    assert_eq!(type_key(&mut ui(), 'q'), (Flow::Quit, vec![]));
    assert_eq!(press(&mut ui(), Key::Esc), (Flow::Quit, vec![]));
    let mut help = ui();
    type_key(&mut help, '?');
    assert_eq!(type_key(&mut help, 'q').0, Flow::NextFrame);
    let mut search = ui();
    type_key(&mut search, '/');
    assert_eq!(type_key(&mut search, 'q').0, Flow::Proceed);
    assert_eq!(search.search_query, "q");
}

#[test]
fn the_first_command_wins() {
    let mut ui = ui();
    ui.keybindings.help = key('q');
    assert_eq!(type_key(&mut ui, 'q').0, Flow::Quit);
    assert_eq!(ui.keybindings.command_for(Key::Char('q'), false), Some(Command::Quit));
    ui.keybindings.genre_next = key('m');
    assert_eq!(ui.keybindings.command_for(Key::Char('m'), false), Some(Command::GenreNext));
    assert_eq!(ui.keybindings.command_for(Key::Char('<'), false), None);
    assert_eq!(ui.keybindings.command_for(Key::Char('<'), true), Some(Command::PerfTickSlower));
}

#[test]
fn help_and_details_open_and_close() {
    let mut ui = ui();
    assert_eq!(type_key(&mut ui, '?'), (Flow::Proceed, vec![]));
    assert_eq!(ui.overlay, Overlay::Help);
    assert_eq!(type_key(&mut ui, 'f'), (Flow::NextFrame, vec![]));
    assert_eq!(ui.overlay, Overlay::Help);
    type_key(&mut ui, 'i');
    assert_eq!(ui.overlay, Overlay::Hidden);
    type_key(&mut ui, 'i');
    assert_eq!(ui.overlay, Overlay::StationDetail);
    assert_eq!(press(&mut ui, Key::Esc), (Flow::NextFrame, vec![]));
    assert_eq!(ui.overlay, Overlay::Hidden);
}

#[test]
fn themes_are_previewed_and_picked() {
    let mut ui = ui();
    type_key(&mut ui, 't');
    assert_eq!((ui.overlay, ui.theme_selected), (Overlay::ThemePicker, 1));
    press(&mut ui, Key::Down);
    assert_eq!((ui.theme.as_str(), ui.theme_selected), ("amber", 2));
    type_key(&mut ui, 'j');
    assert_eq!((ui.theme.as_str(), ui.theme_selected), ("amber", 2));
    type_key(&mut ui, 'k');
    press(&mut ui, Key::Up);
    press(&mut ui, Key::Up);
    assert_eq!((ui.theme.as_str(), ui.theme_selected), ("dark", 0));
    assert_eq!(press(&mut ui, Key::Enter), (Flow::NextFrame, vec![Effect::SaveConfig]));
    assert_eq!((ui.overlay, ui.theme.as_str()), (Overlay::Hidden, "dark"));
    type_key(&mut ui, 't');
    press(&mut ui, Key::Down);
    assert_eq!(type_key(&mut ui, 't'), (Flow::NextFrame, vec![]));
    assert_eq!((ui.overlay, ui.theme.as_str()), (Overlay::Hidden, "light"));
}

#[test]
fn an_unknown_theme_starts_at_the_top() {
    let mut ui = ui();
    ui.theme = "gone".to_string();
    type_key(&mut ui, 't');
    assert_eq!(ui.theme_selected, 0);
    assert_eq!(ui.theme, "gone");
}

#[test]
fn genres_are_picked() {
    let mut ui = ui();
    type_key(&mut ui, 'g');
    assert_eq!((ui.overlay, ui.genre_selected), (Overlay::GenrePicker, 1));
    press(&mut ui, Key::Down);
    press(&mut ui, Key::Down);
    assert_eq!(ui.genre_selected, 2);
    assert_eq!(press(&mut ui, Key::Enter), (Flow::NextFrame, vec![Effect::SelectGenre(2)]));
    assert_eq!(ui.overlay, Overlay::Hidden);
    type_key(&mut ui, 'g');
    type_key(&mut ui, 'k');
    type_key(&mut ui, 'k');
    assert_eq!(ui.genre_selected, 0);
    assert_eq!(type_key(&mut ui, 'g'), (Flow::NextFrame, vec![]));
    assert_eq!(ui.overlay, Overlay::Hidden);
}

#[test]
fn settings_rebind_a_primary_key() {
    let mut ui = ui();
    type_key(&mut ui, 'S');
    assert_eq!(ui.overlay, Overlay::Settings);
    press(&mut ui, Key::Enter);
    assert_eq!(ui.settings_awaiting_key, Some((0, false)));
    assert_eq!(type_key(&mut ui, 'x'), (Flow::NextFrame, vec![Effect::SaveConfig]));
    assert_eq!(ui.settings_awaiting_key, None);
    assert_eq!(ui.keybindings.quit.primary, Key::Char('x'));
    assert_eq!(ui.keybindings.quit.alt, Some(Key::Esc));
    assert_eq!(ui.keybindings.help.primary, Key::Char('?'));
}

#[test]
fn settings_rebind_an_alternative_key() {
    let mut ui = ui();
    type_key(&mut ui, 'S');
    type_key(&mut ui, 'j');
    type_key(&mut ui, 'a');
    assert_eq!(ui.settings_awaiting_key, Some((1, true)));
    assert_eq!(type_key(&mut ui, 'h').1, vec![Effect::SaveConfig]);
    assert_eq!((ui.keybindings.help.primary, ui.keybindings.help.alt), (Key::Char('?'), Some(Key::Char('h'))));
    assert_eq!(type_key(&mut ui, 'd').1, vec![Effect::SaveConfig]);
    assert_eq!((ui.keybindings.help.primary, ui.keybindings.help.alt), (Key::Char('?'), None));
}

#[test]
fn escape_takes_the_question_back() {
    let mut ui = ui();
    type_key(&mut ui, 'S');
    press(&mut ui, Key::Enter);
    assert_eq!(press(&mut ui, Key::Esc), (Flow::NextFrame, vec![]));
    assert_eq!(ui.settings_awaiting_key, None);
    assert_eq!(ui.overlay, Overlay::Settings);
    assert_eq!(ui.keybindings.quit.primary, Key::Char('q'));
    press(&mut ui, Key::Esc);
    assert_eq!(ui.overlay, Overlay::Hidden);
}

#[test]
fn settings_go_back_to_the_defaults() {
    let mut ui = ui();
    ui.keybindings.quit = key('1');
    ui.keybindings.help = key('2');
    type_key(&mut ui, 'S');
    assert_eq!(type_key(&mut ui, 'r').1, vec![Effect::SaveConfig]);
    assert_eq!(ui.keybindings.quit.primary, Key::Char('q'));
    assert_eq!(ui.keybindings.help.primary, Key::Char('2'));
    assert_eq!(type_key(&mut ui, 'R').1, vec![Effect::SaveConfig]);
    assert_eq!(ui.keybindings.help.primary, Key::Char('?'));
    assert_eq!(type_key(&mut ui, 'S').1, vec![]);
    assert_eq!(ui.overlay, Overlay::Hidden);
}

#[test]
fn settings_selection_stays_on_the_list() {
    let mut ui = ui();
    type_key(&mut ui, 'S');
    press(&mut ui, Key::Up);
    assert_eq!(ui.settings_selected, 0);
    for _ in 0..40 {
        press(&mut ui, Key::Down);
    }
    assert_eq!(ui.settings_selected, 21);
    assert_eq!(ui.keybindings.key_at_index(21), Some(Command::PerfTickFaster));
    assert_eq!(ui.keybindings.key_at_index(22), None);
    ui.settings_selected = 22;
    assert_eq!(type_key(&mut ui, 'd').1, vec![]);
    assert_eq!(type_key(&mut ui, 'r').1, vec![]);
    ui.settings_awaiting_key = Some((22, false));
    assert_eq!(type_key(&mut ui, 'x').1, vec![]);
    assert_eq!(ui.settings_awaiting_key, None);
}

#[test]
fn rebinding_changes_one_command() {
    let mut all = bindings();
    for i in 0..22 {
        let command = all.key_at_index(i).unwrap();
        all.set_binding(command, Key::Other(100 + i as u32), None);
    }
    for i in 0..22 {
        let command = all.key_at_index(i).unwrap();
        assert_eq!(all.get(command).primary, Key::Other(100 + i as u32));
    }
    all.set_binding(Command::SmoothingUp, Key::Enter, None);
    assert_eq!(all.get(Command::SmoothingUp).primary, Key::Char('}'));
    assert_eq!(all.get(Command::SmoothingDown).primary, Key::Char('{'));
}

#[test]
fn the_visualizer_is_switched() {
    let mut ui = ui();
    let off = type_key(&mut ui, 'v').1;
    assert_eq!(off, vec![Effect::SetVisualizer(false), Effect::StopCapture, Effect::SaveConfig]);
    assert_eq!((ui.visualizer_enabled, ui.tick_rate_ms), (false, 200));
    let on = type_key(&mut ui, 'v').1;
    assert_eq!(on, vec![Effect::SetVisualizer(true), Effect::LoadTickRate, Effect::SaveConfig]);
    type_key(&mut ui, 'v');
    let playing = Surroundings { playing: true, ..surroundings() };
    let on = ui.handle_key(&playing, KeyPress { code: Key::Char('v'), modifiers: 0, pressed: true }).1;
    assert_eq!(
        on,
        vec![Effect::SetVisualizer(true), Effect::LoadTickRate, Effect::RestartCapture, Effect::SaveConfig]
    );
}

#[test]
fn the_profiler_has_keys_of_its_own() {
    let mut ui = ui();
    assert_eq!(type_key(&mut ui, '<').1, vec![]);
    assert_eq!(type_key(&mut ui, '{').1, vec![]);
    type_key(&mut ui, 'p');
    assert!(ui.show_perf);
    assert_eq!(type_key(&mut ui, '<').1, vec![Effect::SaveConfig]);
    assert_eq!(ui.tick_rate_ms, 60);
    assert_eq!(type_key(&mut ui, '>').1, vec![Effect::SaveConfig]);
    assert_eq!(ui.tick_rate_ms, 50);
    assert_eq!(ui.noise_reduction, 77);
    assert_eq!(type_key(&mut ui, '{').1, vec![]);
    assert_eq!(ui.noise_reduction, 72);
    assert_eq!(type_key(&mut ui, '}').1, vec![]);
    assert_eq!(ui.noise_reduction, 77);
    ui.tick_rate_ms = 195;
    type_key(&mut ui, '<');
    assert_eq!(ui.tick_rate_ms, 200);
    type_key(&mut ui, '<');
    assert_eq!(ui.tick_rate_ms, 200);
    ui.tick_rate_ms = 15;
    type_key(&mut ui, '>');
    assert_eq!(ui.tick_rate_ms, 10);
    ui.tick_rate_ms = 0;
    type_key(&mut ui, '>');
    assert_eq!(ui.tick_rate_ms, 10);
    ui.tick_rate_ms = 5000;
    type_key(&mut ui, '<');
    assert_eq!(ui.tick_rate_ms, 200);
    type_key(&mut ui, 'p');
    assert!(!ui.show_perf);
}

#[test]
fn a_query_is_typed() {
    let mut ui = ui();
    ui.search_query = "old".to_string();
    type_key(&mut ui, '/');
    assert_eq!((ui.input_mode, ui.search_query.as_str()), (InputMode::Editing, ""));
    assert_eq!(press(&mut ui, Key::Backspace), (Flow::Proceed, vec![]));
    for c in "jazz\u{e9}".chars() {
        assert_eq!(type_key(&mut ui, c), (Flow::Proceed, vec![]));
    }
    assert_eq!(ui.search_query, "jazz\u{e9}");
    press(&mut ui, Key::Backspace);
    press(&mut ui, Key::Up);
    assert_eq!(ui.search_query, "jazz");
    assert_eq!(press(&mut ui, Key::Enter), (Flow::Proceed, vec![Effect::Search]));
    assert_eq!((ui.input_mode, ui.search_query.as_str()), (InputMode::Normal, "jazz"));
    type_key(&mut ui, '/');
    assert_eq!(press(&mut ui, Key::Esc), (Flow::Proceed, vec![]));
    assert_eq!(ui.input_mode, InputMode::Normal);
}

#[test]
fn smoothing_goes_in_steps_of_five_hundredths() {
    for n in 0..=100u32 {
        let value = n as f64 / 100.0;
        let down = (((value - 0.05) * 100.0).round() / 100.0).max(0.05);
        let up = (((value + 0.05) * 100.0).round() / 100.0).min(0.95);
        let mut ui = ui();
        ui.show_perf = true;
        ui.noise_reduction = n;
        type_key(&mut ui, '{');
        assert_eq!(ui.noise_reduction as f64 / 100.0, down);
        ui.noise_reduction = n;
        type_key(&mut ui, '}');
        assert_eq!(ui.noise_reduction as f64 / 100.0, up);
    }
}

#[test]
fn every_key_is_accepted_everywhere() {
    let keys = [
        Key::Enter, Key::Esc, Key::Backspace, Key::Up, Key::Down, Key::BackTab, Key::Other(1), Key::Other(7),
        Key::Char('a'), Key::Char('d'), Key::Char('f'), Key::Char('g'), Key::Char('i'), Key::Char('j'),
        Key::Char('k'), Key::Char('p'), Key::Char('r'), Key::Char('R'), Key::Char('S'), Key::Char('t'),
        Key::Char('v'), Key::Char('/'), Key::Char('?'), Key::Char('<'), Key::Char('>'), Key::Char('{'),
        Key::Char('}'),
    ];
    let mut ui = ui();
    let mut seed: u32 = 99;
    for _ in 0..20000 {
        seed = seed.wrapping_mul(1664525).wrapping_add(1013904223);
        let before = ui.keybindings;
        let (tick, visualizer) = (ui.tick_rate_ms, ui.visualizer_enabled);
        let (_, effects) = press(&mut ui, keys[(seed >> 16) as usize % keys.len()]);
        assert!(ui.overlay != Overlay::ThemePicker || ui.theme_selected < 3);
        assert!(ui.overlay != Overlay::GenrePicker || ui.genre_selected < 3);
        assert!(ui.settings_selected < 22);
        assert!((10..=200).contains(&ui.tick_rate_ms));
        assert!((5..=95).contains(&ui.noise_reduction));
        let changed = (0..22).any(|i| {
            let command = before.key_at_index(i).unwrap();
            let (old, new) = (before.get(command), ui.keybindings.get(command));
            old.primary != new.primary || old.alt != new.alt
        });
        if changed || tick != ui.tick_rate_ms || visualizer != ui.visualizer_enabled {
            assert!(effects.contains(&Effect::SaveConfig));
        }
        if seed % 50 == 0 {
            ui.keybindings = bindings();
        }
    }
}

#[test]
fn keys_that_cannot_be_taken() {
    let mut env = surroundings();
    let pressed = |code| KeyPress { code, modifiers: 0, pressed: true };
    let mut ui = ui();
    ui.theme_selected = 99;
    for code in [Key::Enter, Key::Up, Key::Down, Key::Char('<')] {
        assert!(ui.can_take(&env, pressed(code)));
    }
    ui.overlay = Overlay::ThemePicker;
    assert!(!ui.can_take(&env, pressed(Key::Enter)));
    assert!(!ui.can_take(&env, pressed(Key::Up)));
    assert!(ui.can_take(&env, pressed(Key::Esc)));
    assert!(ui.can_take(&env, KeyPress { code: Key::Enter, modifiers: 0, pressed: false }));
    ui.overlay = Overlay::GenrePicker;
    assert!(ui.can_take(&env, pressed(Key::Down)));
    env.genres = 0;
    assert!(!ui.can_take(&env, pressed(Key::Down)));
    ui.overlay = Overlay::Hidden;
    ui.tick_rate_ms = u64::MAX;
    assert!(ui.can_take(&env, pressed(Key::Char('<'))));
    ui.show_perf = true;
    assert!(!ui.can_take(&env, pressed(Key::Char('<'))));
    assert!(ui.can_take(&env, pressed(Key::Char('>'))));
}
