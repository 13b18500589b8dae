//! The user interface: what a key does.
//!
//! [`Ui::handle_key`] takes a key press, changes what the interface itself
//! holds (the overlay, the selections, the bindings) and hands back what is to
//! be done outside of it, in order.
use crate::keys::{commands, shift_bit, shift_held, Binding, Command, Key, KeyBindings, KeyPress, ACTIONS};
use vstd::prelude::*;

verus! {

/// The slowest tick rate, in milliseconds per tick: plenty for a still screen.
pub const SLOWEST_TICK_MS: u64 = 200;

/// The fastest tick rate, in milliseconds per tick.
pub const FASTEST_TICK_MS: u64 = 10;

/// By how much a key changes the tick rate.
pub const TICK_STEP_MS: u64 = 10;

/// The least that the visualizer is smoothed, in hundredths.
pub const LEAST_SMOOTHING: u32 = 5;

/// The most that the visualizer is smoothed, in hundredths.
pub const MOST_SMOOTHING: u32 = 95;

/// By how much a key changes the smoothing, in hundredths.
pub const SMOOTHING_STEP: u32 = 5;

/// Where typed characters go.
#[derive(Clone, Copy, Debug, PartialEq, Eq, Structural)]
pub enum InputMode {
    Normal,
    /// Into the search query.
    Editing,
}

/// What is shown on top of the stations.
#[derive(Clone, Copy, Debug, PartialEq, Eq, Structural)]
pub enum Overlay {
    /// Nothing.
    Hidden,
    Help,
    StationDetail,
    Settings,
    GenrePicker,
    ThemePicker,
}

/// What the loop that draws and reads keys does next.
#[derive(Clone, Copy, Debug, PartialEq, Eq, Structural)]
pub enum Flow {
    /// Go on with this frame.
    Proceed,
    /// Go straight to the next frame.
    NextFrame,
    /// Leave the loop.
    Quit,
}

/// Something to be done outside of the interface.
#[derive(Clone, Copy, Debug, PartialEq, Eq, Structural)]
pub enum Effect {
    /// Write the settings to disk.
    SaveConfig,
    /// Take the tick rate from the settings on disk.
    LoadTickRate,
    /// Tell the player whether the visualizer is on.
    SetVisualizer(bool),
    /// Stop capturing audio.
    StopCapture,
    /// Capture audio again.
    RestartCapture,
    /// Show the stations of a genre.
    SelectGenre(usize),
    /// Stop playing.
    Stop,
    /// Play the selected station.
    Play,
    /// Make the selected station a favorite, or no longer one.
    ToggleFavorite,
    /// Change the volume by so much.
    ChangeVolume(i32),
    /// Select the next station.
    Next,
    /// Select the previous station.
    Previous,
    /// Move on to the next panel.
    CyclePanel,
    /// Show the next genre.
    NextGenre,
    /// Show the previous genre.
    PreviousGenre,
    /// Fetch more stations.
    LoadMore,
    /// Search for the query.
    Search,
}

/// What a key handler has to know of the rest of the program.
pub struct Surroundings {
    /// The names of the themes.
    pub themes: Vec<String>,
    /// How many genres there are.
    pub genres: usize,
    /// The genre that is shown.
    pub genre: usize,
    /// Whether a station is playing.
    pub playing: bool,
    /// The bindings that the program comes with.
    pub default_bindings: KeyBindings,
}

/// The contents of [`Surroundings`].
pub struct SurroundingsView {
    pub themes: Seq<Seq<char>>,
    pub genres: usize,
    pub genre: usize,
    pub playing: bool,
    pub default_bindings: KeyBindings,
}

impl View for Surroundings {
    type V = SurroundingsView;

    open spec fn view(&self) -> SurroundingsView {
        SurroundingsView {
            themes: self.themes@.map_values(|s: String| s@),
            genres: self.genres,
            genre: self.genre,
            playing: self.playing,
            default_bindings: self.default_bindings,
        }
    }
}

/// What the interface holds.
pub struct Ui {
    pub input_mode: InputMode,
    pub overlay: Overlay,
    pub keybindings: KeyBindings,
    /// The name of the theme that is shown.
    pub theme: String,
    /// The row selected in the theme picker.
    pub theme_selected: usize,
    /// The row selected in the genre picker.
    pub genre_selected: usize,
    /// The row selected in the settings.
    pub settings_selected: usize,
    /// The row whose primary (false) or alternative (true) key is to be set by
    /// the next key.
    pub settings_awaiting_key: Option<(usize, bool)>,
    pub visualizer_enabled: bool,
    pub tick_rate_ms: u64,
    /// Whether the profiler is shown.
    pub show_perf: bool,
    /// How much the visualizer is smoothed, in hundredths.
    pub noise_reduction: u32,
    pub search_query: String,
}

/// The contents of a [`Ui`].
pub struct UiView {
    pub input_mode: InputMode,
    pub overlay: Overlay,
    pub keybindings: KeyBindings,
    pub theme: Seq<char>,
    pub theme_selected: usize,
    pub genre_selected: usize,
    pub settings_selected: usize,
    pub settings_awaiting_key: Option<(usize, bool)>,
    pub visualizer_enabled: bool,
    pub tick_rate_ms: u64,
    pub show_perf: bool,
    pub noise_reduction: u32,
    pub search_query: Seq<char>,
}

impl View for Ui {
    type V = UiView;

    open spec fn view(&self) -> UiView {
        UiView {
            input_mode: self.input_mode,
            overlay: self.overlay,
            keybindings: self.keybindings,
            theme: self.theme@,
            theme_selected: self.theme_selected,
            genre_selected: self.genre_selected,
            settings_selected: self.settings_selected,
            settings_awaiting_key: self.settings_awaiting_key,
            visualizer_enabled: self.visualizer_enabled,
            tick_rate_ms: self.tick_rate_ms,
            show_perf: self.show_perf,
            noise_reduction: self.noise_reduction,
            search_query: self.search_query@,
        }
    }
}

/// A key that moves a selection up.
pub open spec fn is_up(key: Key) -> bool {
    key is Up || key == Key::Char('k')
}

/// A key that moves a selection down.
pub open spec fn is_down(key: Key) -> bool {
    key is Down || key == Key::Char('j')
}

/// The place of the first theme with this name, from place `i` on; the first
/// of all if there is none.
pub open spec fn theme_place(themes: Seq<Seq<char>>, name: Seq<char>, i: int) -> int
    decreases themes.len() - i,
{
    if i < 0 || i >= themes.len() {
        0
    } else if themes[i] == name {
        i
    } else {
        theme_place(themes, name, i + 1)
    }
}

impl UiView {
    /// The overlay is closed.
    pub open spec fn closed(self) -> UiView {
        UiView { overlay: Overlay::Hidden, ..self }
    }

    /// Row `i` of the theme picker is selected, and its theme shown.
    pub open spec fn previewing(self, themes: Seq<Seq<char>>, i: int) -> UiView {
        UiView { theme_selected: i as usize, theme: themes[i], ..self }
    }

    /// A key closes the theme picker, moves its selection, or settles on the
    /// theme selected.
    pub open spec fn after_theme_key(self, themes: Seq<Seq<char>>, key: Key) -> (UiView, Seq<Effect>) {
        if key is Esc || self.keybindings.theme_picker.has(key) {
            (self.closed(), Seq::empty())
        } else if is_up(key) && self.theme_selected > 0 {
            (self.previewing(themes, self.theme_selected - 1), Seq::empty())
        } else if is_down(key) && self.theme_selected + 1 < themes.len() {
            (self.previewing(themes, self.theme_selected + 1), Seq::empty())
        } else if key is Enter {
            (
                self.previewing(themes, self.theme_selected as int).closed(),
                seq![Effect::SaveConfig],
            )
        } else {
            (self, Seq::empty())
        }
    }

    /// A key closes the genre picker, moves its selection, or settles on the
    /// genre selected.
    pub open spec fn after_genre_key(self, genres: usize, key: Key) -> (UiView, Seq<Effect>) {
        if key is Esc || self.keybindings.genre_picker.has(key) {
            (self.closed(), Seq::empty())
        } else if is_up(key) && self.genre_selected > 0 {
            (
                UiView { genre_selected: (self.genre_selected - 1) as usize, ..self },
                Seq::empty(),
            )
        } else if is_down(key) && self.genre_selected + 1 < genres {
            (
                UiView { genre_selected: (self.genre_selected + 1) as usize, ..self },
                Seq::empty(),
            )
        } else if key is Enter {
            (self.closed(), seq![Effect::SelectGenre(self.genre_selected)])
        } else {
            (self, Seq::empty())
        }
    }

    /// The command in row `i` has other keys.
    pub open spec fn rebound(self, i: usize, binding: Binding) -> UiView {
        UiView { keybindings: self.keybindings.with(commands()[i as int], binding), ..self }
    }

    /// The key that was asked for in the settings: it takes its place beside
    /// the other key of the command, unless it takes the question back.
    pub open spec fn after_awaited_key(self, row: usize, alt: bool, key: Key) -> (UiView, Seq<Effect>) {
        let answered = UiView { settings_awaiting_key: None, ..self };
        if key is Esc || row >= ACTIONS {
            (answered, Seq::empty())
        } else {
            let current = self.keybindings.of(commands()[row as int]);
            let binding = if alt {
                Binding { primary: current.primary, alt: Some(key) }
            } else {
                Binding { primary: key, alt: current.alt }
            };
            (answered.rebound(row, binding), seq![Effect::SaveConfig])
        }
    }

    /// A key moves the selection in the settings, or changes the bindings.
    pub open spec fn after_settings_key(self, defaults: KeyBindings, key: Key) -> (UiView, Seq<Effect>) {
        let row = self.settings_selected;
        if key is Esc || key == Key::Char('S') {
            (self.closed(), Seq::empty())
        } else if is_up(key) && row > 0 {
            (UiView { settings_selected: (row - 1) as usize, ..self }, Seq::empty())
        } else if is_down(key) && row + 1 < ACTIONS {
            (UiView { settings_selected: (row + 1) as usize, ..self }, Seq::empty())
        } else if key is Enter {
            (UiView { settings_awaiting_key: Some((row, false)), ..self }, Seq::empty())
        } else if key == Key::Char('a') {
            (UiView { settings_awaiting_key: Some((row, true)), ..self }, Seq::empty())
        } else if key == Key::Char('d') && row < ACTIONS {
            let primary = self.keybindings.of(commands()[row as int]).primary;
            (self.rebound(row, Binding { primary, alt: None }), seq![Effect::SaveConfig])
        } else if key == Key::Char('r') && row < ACTIONS {
            (
                self.rebound(row, defaults.of(commands()[row as int])),
                seq![Effect::SaveConfig],
            )
        } else if key == Key::Char('R') {
            (UiView { keybindings: defaults, ..self }, seq![Effect::SaveConfig])
        } else {
            (self, Seq::empty())
        }
    }

    /// A key closes the help or the details of a station.
    pub open spec fn after_overlay_key(self, key: Key) -> UiView {
        if key is Esc || self.keybindings.help.has(key) || self.keybindings.station_detail.has(key) {
            self.closed()
        } else {
            self
        }
    }

    /// A key edits the search query.
    pub open spec fn after_editing_key(self, key: Key) -> (UiView, Seq<Effect>) {
        match key {
            Key::Enter => (
                UiView { input_mode: InputMode::Normal, ..self },
                seq![Effect::Search],
            ),
            Key::Esc => (UiView { input_mode: InputMode::Normal, ..self }, Seq::empty()),
            Key::Char(c) => (
                UiView { search_query: self.search_query.push(c), ..self },
                Seq::empty(),
            ),
            Key::Backspace => (
                UiView {
                    search_query: if self.search_query.len() > 0 {
                        self.search_query.drop_last()
                    } else {
                        self.search_query
                    },
                    ..self
                },
                Seq::empty(),
            ),
            _ => (self, Seq::empty()),
        }
    }

    /// What a command changes in the interface.
    pub open spec fn after_command(self, env: SurroundingsView, command: Command) -> UiView {
        match command {
            Command::Help => UiView { overlay: Overlay::Help, ..self },
            Command::StationDetail => UiView { overlay: Overlay::StationDetail, ..self },
            Command::Settings => UiView {
                overlay: Overlay::Settings,
                settings_awaiting_key: None,
                ..self
            },
            Command::GenrePicker => UiView {
                overlay: Overlay::GenrePicker,
                genre_selected: env.genre,
                ..self
            },
            Command::ThemePicker => UiView {
                overlay: Overlay::ThemePicker,
                theme_selected: theme_place(env.themes, self.theme, 0) as usize,
                ..self
            },
            Command::VisualizerToggle => UiView {
                visualizer_enabled: !self.visualizer_enabled,
                tick_rate_ms: if self.visualizer_enabled {
                    SLOWEST_TICK_MS
                } else {
                    self.tick_rate_ms
                },
                ..self
            },
            Command::Search => UiView {
                search_query: Seq::empty(),
                input_mode: InputMode::Editing,
                ..self
            },
            Command::PerfToggle => UiView { show_perf: !self.show_perf, ..self },
            Command::PerfTickSlower => UiView {
                tick_rate_ms: if self.tick_rate_ms + TICK_STEP_MS < SLOWEST_TICK_MS {
                    (self.tick_rate_ms + TICK_STEP_MS) as u64
                } else {
                    SLOWEST_TICK_MS
                },
                ..self
            },
            Command::PerfTickFaster => UiView {
                tick_rate_ms: if self.tick_rate_ms - TICK_STEP_MS > FASTEST_TICK_MS {
                    (self.tick_rate_ms - TICK_STEP_MS) as u64
                } else {
                    FASTEST_TICK_MS
                },
                ..self
            },
            Command::SmoothingDown => UiView {
                noise_reduction: if self.noise_reduction - SMOOTHING_STEP > LEAST_SMOOTHING {
                    (self.noise_reduction - SMOOTHING_STEP) as u32
                } else {
                    LEAST_SMOOTHING
                },
                ..self
            },
            Command::SmoothingUp => UiView {
                noise_reduction: if self.noise_reduction + SMOOTHING_STEP < MOST_SMOOTHING {
                    (self.noise_reduction + SMOOTHING_STEP) as u32
                } else {
                    MOST_SMOOTHING
                },
                ..self
            },
            _ => self,
        }
    }

    /// What a command asks to be done elsewhere.
    pub open spec fn command_effects(
        self,
        env: SurroundingsView,
        command: Command,
        shift: bool,
    ) -> Seq<Effect> {
        match command {
            Command::VisualizerToggle => if self.visualizer_enabled {
                seq![Effect::SetVisualizer(false), Effect::StopCapture, Effect::SaveConfig]
            } else if env.playing {
                seq![
                    Effect::SetVisualizer(true),
                    Effect::LoadTickRate,
                    Effect::RestartCapture,
                    Effect::SaveConfig,
                ]
            } else {
                seq![Effect::SetVisualizer(true), Effect::LoadTickRate, Effect::SaveConfig]
            },
            Command::Stop => seq![Effect::Stop],
            Command::ToggleFavorite => seq![Effect::ToggleFavorite],
            Command::VolumeUp => seq![Effect::ChangeVolume(5)],
            Command::VolumeDown => seq![Effect::ChangeVolume((-5) as i32)],
            Command::NavigateDown => seq![Effect::Next],
            Command::NavigateUp => seq![Effect::Previous],
            Command::Play => seq![Effect::Play],
            Command::CyclePanel => if shift {
                seq![Effect::NextGenre]
            } else {
                seq![Effect::CyclePanel]
            },
            Command::GenrePrev => seq![Effect::PreviousGenre],
            Command::GenreNext => seq![Effect::NextGenre],
            Command::LoadMore => seq![Effect::LoadMore],
            Command::PerfTickSlower => seq![Effect::SaveConfig],
            Command::PerfTickFaster => seq![Effect::SaveConfig],
            _ => Seq::empty(),
        }
    }

    /// The command that a key calls for while stations are browsed.
    pub open spec fn command_of(self, key: Key) -> Option<Command> {
        self.keybindings.command_from(key, self.show_perf, 0)
    }

    /// What becomes of a key: the interface after it, how the loop goes on, and
    /// what is to be done elsewhere.
    pub open spec fn after_key(self, env: SurroundingsView, key: KeyPress) -> (UiView, Flow, Seq<Effect>) {
        if !key.pressed {
            (self, Flow::NextFrame, Seq::empty())
        } else if self.input_mode is Editing {
            let (ui, effects) = self.after_editing_key(key.code);
            (ui, Flow::Proceed, effects)
        } else {
            match self.overlay {
                Overlay::ThemePicker => {
                    let (ui, effects) = self.after_theme_key(env.themes, key.code);
                    (ui, Flow::NextFrame, effects)
                },
                Overlay::GenrePicker => {
                    let (ui, effects) = self.after_genre_key(env.genres, key.code);
                    (ui, Flow::NextFrame, effects)
                },
                Overlay::Settings => {
                    let (ui, effects) = match self.settings_awaiting_key {
                        Some((row, alt)) => self.after_awaited_key(row, alt, key.code),
                        None => self.after_settings_key(env.default_bindings, key.code),
                    };
                    (ui, Flow::NextFrame, effects)
                },
                Overlay::Help | Overlay::StationDetail => (
                    self.after_overlay_key(key.code),
                    Flow::NextFrame,
                    Seq::empty(),
                ),
                Overlay::Hidden => match self.command_of(key.code) {
                    Some(Command::Quit) => (self, Flow::Quit, Seq::empty()),
                    Some(command) => (
                        self.after_command(env, command),
                        Flow::Proceed,
                        self.command_effects(env, command, shift_bit(key.modifiers)),
                    ),
                    None => (self, Flow::Proceed, Seq::empty()),
                },
            }
        }
    }

    /// The key has a meaning here: the rows that it goes to exist, and the tick
    /// rate can be counted up.
    pub open spec fn accepts(self, env: SurroundingsView, key: KeyPress) -> bool {
        key.pressed && self.input_mode is Normal ==> match self.overlay {
            Overlay::ThemePicker => {
                ||| key.code is Esc || self.keybindings.theme_picker.has(key.code)
                ||| {
                    &&& is_up(key.code) ==> self.theme_selected <= env.themes.len()
                    &&& is_down(key.code) ==> env.themes.len() > 0
                    &&& key.code is Enter ==> self.theme_selected < env.themes.len()
                }
            },
            Overlay::GenrePicker => {
                ||| key.code is Esc || self.keybindings.genre_picker.has(key.code)
                ||| is_down(key.code) ==> env.genres > 0
            },
            Overlay::Hidden => self.command_of(key.code) == Some(Command::PerfTickSlower)
                ==> self.tick_rate_ms + TICK_STEP_MS <= u64::MAX,
            _ => true,
        }
    }
}

fn up_key(key: Key) -> (yes: bool)
    ensures
        yes == is_up(key),
{
    key == Key::Up || key == Key::Char('k')
}

fn down_key(key: Key) -> (yes: bool)
    ensures
        yes == is_down(key),
{
    key == Key::Down || key == Key::Char('j')
}

/// The place of the first theme with this name, or of the first of all.
fn place_of_theme(themes: &Vec<String>, name: &String) -> (place: usize)
    ensures
        place == theme_place(themes@.map_values(|s: String| s@), name@, 0),
{
    let ghost names = themes@.map_values(|s: String| s@);
    let mut i: usize = 0;
    while i < themes.len()
        invariant
            i <= themes@.len(),
            names == themes@.map_values(|s: String| s@),
            theme_place(names, name@, 0) == theme_place(names, name@, i as int),
        decreases themes.len() - i,
    {
        assert(names[i as int] == themes@[i as int]@);
        if themes[i] == *name {
            return i;
        }
        i += 1;
    }
    0
}

impl Ui {
    /// An interface that shows the stations.
    pub fn new(
        keybindings: KeyBindings,
        theme: String,
        visualizer_enabled: bool,
        tick_rate_ms: u64,
        noise_reduction: u32,
    ) -> (ui: Ui)
        ensures
            ui@ == (UiView {
                input_mode: InputMode::Normal,
                overlay: Overlay::Hidden,
                keybindings,
                theme: theme@,
                theme_selected: 0,
                genre_selected: 0,
                settings_selected: 0,
                settings_awaiting_key: None,
                visualizer_enabled,
                tick_rate_ms: if visualizer_enabled {
                    tick_rate_ms
                } else {
                    SLOWEST_TICK_MS
                },
                show_perf: false,
                noise_reduction,
                search_query: Seq::empty(),
            }),
    {
        Ui {
            input_mode: InputMode::Normal,
            overlay: Overlay::Hidden,
            keybindings,
            theme,
            theme_selected: 0,
            genre_selected: 0,
            settings_selected: 0,
            settings_awaiting_key: None,
            visualizer_enabled,
            tick_rate_ms: if visualizer_enabled {
                tick_rate_ms
            } else {
                SLOWEST_TICK_MS
            },
            show_perf: false,
            noise_reduction,
            search_query: String::new(),
        }
    }

    /// Select a row of the theme picker, and show its theme.
    fn preview(&mut self, themes: &Vec<String>, i: usize)
        requires
            i < themes@.len(),
        ensures
            final(self)@ == old(self)@.previewing(themes@.map_values(|s: String| s@), i as int),
    {
        self.theme_selected = i;
        self.theme = themes[i].clone();
    }

    fn theme_key(&mut self, themes: &Vec<String>, key: Key, effects: &mut Vec<Effect>)
        requires
            key is Esc || old(self)@.keybindings.theme_picker.has(key) || {
                &&& is_up(key) ==> old(self)@.theme_selected <= themes@.len()
                &&& is_down(key) ==> themes@.len() > 0
                &&& key is Enter ==> old(self)@.theme_selected < themes@.len()
            },
            old(effects)@.len() == 0,
        ensures
            (final(self)@, final(effects)@) == old(self)@.after_theme_key(
                themes@.map_values(|s: String| s@),
                key,
            ),
    {
        if key == Key::Esc || self.keybindings.theme_picker.matches(key) {
            self.overlay = Overlay::Hidden;
        } else if up_key(key) {
            if self.theme_selected > 0 {
                let row: usize = self.theme_selected - 1;
                self.preview(themes, row);
            }
        } else if down_key(key) {
            if self.theme_selected < themes.len() - 1 {
                let row: usize = self.theme_selected + 1;
                self.preview(themes, row);
            }
        } else if key == Key::Enter {
            let row: usize = self.theme_selected;
            self.preview(themes, row);
            effects.push(Effect::SaveConfig);
            self.overlay = Overlay::Hidden;
        }
        assert(effects@ =~= old(self)@.after_theme_key(themes@.map_values(|s: String| s@), key).1);
    }

    fn genre_key(&mut self, genres: usize, key: Key, effects: &mut Vec<Effect>)
        requires
            key is Esc || old(self)@.keybindings.genre_picker.has(key) || (is_down(key) ==> genres > 0),
            old(effects)@.len() == 0,
        ensures
            (final(self)@, final(effects)@) == old(self)@.after_genre_key(genres, key),
    {
        if key == Key::Esc || self.keybindings.genre_picker.matches(key) {
            self.overlay = Overlay::Hidden;
        } else if up_key(key) {
            if self.genre_selected > 0 {
                self.genre_selected = self.genre_selected - 1;
            }
        } else if down_key(key) {
            if self.genre_selected < genres - 1 {
                self.genre_selected = self.genre_selected + 1;
            }
        } else if key == Key::Enter {
            effects.push(Effect::SelectGenre(self.genre_selected));
            self.overlay = Overlay::Hidden;
        }
        assert(effects@ =~= old(self)@.after_genre_key(genres, key).1);
    }

    fn awaited_key(&mut self, row: usize, alt: bool, key: Key, effects: &mut Vec<Effect>)
        requires
            old(effects)@.len() == 0,
        ensures
            (final(self)@, final(effects)@) == old(self)@.after_awaited_key(row, alt, key),
    {
        if key != Key::Esc {
            if let Some(command) = self.keybindings.key_at_index(row) {
                let current = self.keybindings.get(command);
                if alt {
                    self.keybindings.set_binding(command, current.primary, Some(key));
                } else {
                    self.keybindings.set_binding(command, key, current.alt);
                }
                effects.push(Effect::SaveConfig);
            }
        }
        self.settings_awaiting_key = None;
        assert(effects@ =~= old(self)@.after_awaited_key(row, alt, key).1);
    }

    fn settings_key(&mut self, defaults: &KeyBindings, key: Key, effects: &mut Vec<Effect>)
        requires
            old(effects)@.len() == 0,
        ensures
            (final(self)@, final(effects)@) == old(self)@.after_settings_key(*defaults, key),
    {
        let row: usize = self.settings_selected;
        if key == Key::Esc || key == Key::Char('S') {
            self.overlay = Overlay::Hidden;
        } else if up_key(key) {
            if row > 0 {
                self.settings_selected = row - 1;
            }
        } else if down_key(key) {
            if row < ACTIONS - 1 {
                self.settings_selected = row + 1;
            }
        } else if key == Key::Enter {
            self.settings_awaiting_key = Some((row, false));
        } else if key == Key::Char('a') {
            self.settings_awaiting_key = Some((row, true));
        } else if key == Key::Char('d') {
            if let Some(command) = self.keybindings.key_at_index(row) {
                let primary = self.keybindings.get(command).primary;
                self.keybindings.set_binding(command, primary, None);
                effects.push(Effect::SaveConfig);
            }
        } else if key == Key::Char('r') {
            if let Some(command) = self.keybindings.key_at_index(row) {
                let binding = defaults.get(command);
                self.keybindings.set_binding(command, binding.primary, binding.alt);
                effects.push(Effect::SaveConfig);
            }
        } else if key == Key::Char('R') {
            self.keybindings = *defaults;
            effects.push(Effect::SaveConfig);
        }
        assert(effects@ =~= old(self)@.after_settings_key(*defaults, key).1);
    }

    fn editing_key(&mut self, key: Key, effects: &mut Vec<Effect>)
        requires
            old(effects)@.len() == 0,
        ensures
            (final(self)@, final(effects)@) == old(self)@.after_editing_key(key),
    {
        match key {
            Key::Enter => {
                self.input_mode = InputMode::Normal;
                effects.push(Effect::Search);
            },
            Key::Esc => {
                self.input_mode = InputMode::Normal;
            },
            Key::Char(c) => {
                self.search_query.push(c);
            },
            Key::Backspace => {
                let _ = self.search_query.pop();
            },
            _ => {},
        }
        assert(effects@ =~= old(self)@.after_editing_key(key).1);
    }

    /// Carries out a command.
    fn run_command(
        &mut self,
        env: &Surroundings,
        command: Command,
        shift: bool,
        effects: &mut Vec<Effect>,
    )
        requires
            command is PerfTickSlower ==> old(self)@.tick_rate_ms + TICK_STEP_MS <= u64::MAX,
            old(effects)@.len() == 0,
        ensures
            final(self)@ == old(self)@.after_command(env@, command),
            final(effects)@ == old(self)@.command_effects(env@, command, shift),
    {
        match command {
            Command::Quit => {},
            Command::Help => {
                self.overlay = Overlay::Help;
            },
            Command::StationDetail => {
                self.overlay = Overlay::StationDetail;
            },
            Command::Settings => {
                self.overlay = Overlay::Settings;
                self.settings_awaiting_key = None;
            },
            Command::GenrePicker => {
                self.genre_selected = env.genre;
                self.overlay = Overlay::GenrePicker;
            },
            Command::ThemePicker => {
                self.theme_selected = place_of_theme(&env.themes, &self.theme);
                self.overlay = Overlay::ThemePicker;
            },
            Command::VisualizerToggle => {
                self.visualizer_enabled = !self.visualizer_enabled;
                effects.push(Effect::SetVisualizer(self.visualizer_enabled));
                if !self.visualizer_enabled {
                    effects.push(Effect::StopCapture);
                    self.tick_rate_ms = SLOWEST_TICK_MS;
                } else {
                    effects.push(Effect::LoadTickRate);
                    if env.playing {
                        effects.push(Effect::RestartCapture);
                    }
                }
                effects.push(Effect::SaveConfig);
            },
            Command::Search => {
                self.search_query = String::new();
                self.input_mode = InputMode::Editing;
            },
            Command::Stop => effects.push(Effect::Stop),
            Command::ToggleFavorite => effects.push(Effect::ToggleFavorite),
            Command::VolumeUp => effects.push(Effect::ChangeVolume(5)),
            Command::VolumeDown => effects.push(Effect::ChangeVolume(-5)),
            Command::NavigateDown => effects.push(Effect::Next),
            Command::NavigateUp => effects.push(Effect::Previous),
            Command::Play => effects.push(Effect::Play),
            Command::CyclePanel => {
                if shift {
                    effects.push(Effect::NextGenre);
                } else {
                    effects.push(Effect::CyclePanel);
                }
            },
            Command::GenrePrev => effects.push(Effect::PreviousGenre),
            Command::GenreNext => effects.push(Effect::NextGenre),
            Command::LoadMore => effects.push(Effect::LoadMore),
            Command::PerfToggle => {
                self.show_perf = !self.show_perf;
            },
            Command::PerfTickSlower => {
                let slower: u64 = self.tick_rate_ms + TICK_STEP_MS;
                self.tick_rate_ms = if slower < SLOWEST_TICK_MS {
                    slower
                } else {
                    SLOWEST_TICK_MS
                };
                effects.push(Effect::SaveConfig);
            },
            Command::PerfTickFaster => {
                let faster: u64 = self.tick_rate_ms.saturating_sub(TICK_STEP_MS);
                self.tick_rate_ms = if faster > FASTEST_TICK_MS {
                    faster
                } else {
                    FASTEST_TICK_MS
                };
                effects.push(Effect::SaveConfig);
            },
            Command::SmoothingDown => {
                let less: u32 = self.noise_reduction.saturating_sub(SMOOTHING_STEP);
                self.noise_reduction = if less > LEAST_SMOOTHING {
                    less
                } else {
                    LEAST_SMOOTHING
                };
            },
            Command::SmoothingUp => {
                let more: u32 = self.noise_reduction.saturating_add(SMOOTHING_STEP);
                self.noise_reduction = if more < MOST_SMOOTHING {
                    more
                } else {
                    MOST_SMOOTHING
                };
            },
        }
        assert(effects@ =~= old(self)@.command_effects(env@, command, shift));
    }

    /// Whether a key can be taken in: the rows that it goes to exist, and the
    /// tick rate can be counted up.
    pub fn can_take(&self, env: &Surroundings, key: KeyPress) -> (yes: bool)
        ensures
            yes == self@.accepts(env@, key),
    {
        if !key.pressed || self.input_mode == InputMode::Editing {
            return true;
        }
        let code = key.code;
        let themes: usize = env.themes.len();
        match self.overlay {
            Overlay::ThemePicker => {
                if code == Key::Esc || self.keybindings.theme_picker.matches(code) {
                    true
                } else {
                    (!up_key(code) || self.theme_selected <= themes) && (!down_key(code) || themes > 0) && (code
                        != Key::Enter || self.theme_selected < themes)
                }
            },
            Overlay::GenrePicker => {
                code == Key::Esc || self.keybindings.genre_picker.matches(code) || !down_key(code) || env.genres
                    > 0
            },
            Overlay::Hidden => match self.keybindings.command_for(code, self.show_perf) {
                Some(Command::PerfTickSlower) => self.tick_rate_ms <= u64::MAX - TICK_STEP_MS,
                _ => true,
            },
            _ => true,
        }
    }

    /// Take in a key. What comes back says how the loop goes on, and what is to
    /// be done outside of the interface, in order.
    pub fn handle_key(&mut self, env: &Surroundings, key: KeyPress) -> (outcome: (Flow, Vec<Effect>))
        requires
            old(self)@.accepts(env@, key),
        ensures
            (final(self)@, outcome.0, outcome.1@) == old(self)@.after_key(env@, key),
    {
        let mut effects: Vec<Effect> = Vec::new();
        if !key.pressed {
            return (Flow::NextFrame, effects);
        }
        match self.input_mode {
            InputMode::Editing => {
                self.editing_key(key.code, &mut effects);
                (Flow::Proceed, effects)
            },
            InputMode::Normal => match self.overlay {
                Overlay::ThemePicker => {
                    self.theme_key(&env.themes, key.code, &mut effects);
                    (Flow::NextFrame, effects)
                },
                Overlay::GenrePicker => {
                    self.genre_key(env.genres, key.code, &mut effects);
                    (Flow::NextFrame, effects)
                },
                Overlay::Settings => {
                    match self.settings_awaiting_key {
                        Some((row, alt)) => self.awaited_key(row, alt, key.code, &mut effects),
                        None => self.settings_key(&env.default_bindings, key.code, &mut effects),
                    }
                    (Flow::NextFrame, effects)
                },
                Overlay::Help | Overlay::StationDetail => {
                    if key.code == Key::Esc || self.keybindings.help.matches(key.code)
                        || self.keybindings.station_detail.matches(key.code) {
                        self.overlay = Overlay::Hidden;
                    }
                    (Flow::NextFrame, effects)
                },
                Overlay::Hidden => match self.keybindings.command_for(key.code, self.show_perf) {
                    Some(Command::Quit) => (Flow::Quit, effects),
                    Some(command) => {
                        let shift = shift_held(key.modifiers);
                        self.run_command(env, command, shift, &mut effects);
                        (Flow::Proceed, effects)
                    },
                    None => (Flow::Proceed, effects),
                },
            },
        }
    }
}

} // verus!
