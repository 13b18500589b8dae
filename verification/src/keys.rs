//! Keys, what they are bound to, and which command a key calls for.
use crossterm::event::KeyModifiers;
use vstd::prelude::*;

verus! {

/// A key of the keyboard.
#[derive(Clone, Copy, Debug, PartialEq, Eq, Structural)]
pub enum Key {
    Char(char),
    Enter,
    Esc,
    Backspace,
    Up,
    Down,
    BackTab,
    /// Any other key, by a number of its own.
    Other(u32),
}

/// A key was pressed, released or held down.
#[derive(Clone, Copy, Debug)]
pub struct KeyPress {
    pub code: Key,
    /// The modifier keys held down, as the terminal reports them: one bit each.
    pub modifiers: u8,
    /// Whether this is the press itself. Some systems report the release too.
    pub pressed: bool,
}

/// The shift key is among the modifiers: it has the lowest bit.
pub open spec fn shift_bit(modifiers: u8) -> bool {
    modifiers % 2 == 1
}

/// Calls `KeyModifiers::contains` of crossterm, for `KeyModifiers::SHIFT`. That
/// flag is the bit of value 1, and a set of flags contains it if that bit is
/// set.
#[verifier::external_body]
pub(crate) fn shift_held(modifiers: u8) -> (held: bool)
    ensures
        held == shift_bit(modifiers),
{
    KeyModifiers::from_bits_retain(modifiers).contains(KeyModifiers::SHIFT)
}

/// The keys that call for a command.
#[derive(Clone, Copy, Debug)]
pub struct Binding {
    pub primary: Key,
    pub alt: Option<Key>,
}

impl Binding {
    /// `key` is one of the keys.
    pub open spec fn has(self, key: Key) -> bool {
        self.primary == key || self.alt == Some(key)
    }

    /// Whether `key` is one of the keys.
    pub fn matches(&self, key: Key) -> (yes: bool)
        ensures
            yes == self.has(key),
    {
        if self.primary == key {
            return true;
        }
        match self.alt {
            Some(alt) => alt == key,
            None => false,
        }
    }
}

/// What a key can call for while stations are browsed.
#[derive(Clone, Copy, Debug, PartialEq, Eq, Structural)]
pub enum Command {
    Quit,
    Help,
    StationDetail,
    Settings,
    GenrePicker,
    ThemePicker,
    VisualizerToggle,
    Search,
    Stop,
    ToggleFavorite,
    VolumeUp,
    VolumeDown,
    NavigateDown,
    NavigateUp,
    Play,
    CyclePanel,
    GenrePrev,
    GenreNext,
    LoadMore,
    PerfToggle,
    PerfTickSlower,
    PerfTickFaster,
    /// Make the visualizer more responsive (not rebindable).
    SmoothingDown,
    /// Make the visualizer smoother (not rebindable).
    SmoothingUp,
}

/// All commands, those that come first taking precedence where a key is bound
/// to several.
pub open spec fn commands() -> Seq<Command> {
    seq![
        Command::Quit,
        Command::Help,
        Command::StationDetail,
        Command::Settings,
        Command::GenrePicker,
        Command::ThemePicker,
        Command::VisualizerToggle,
        Command::Search,
        Command::Stop,
        Command::ToggleFavorite,
        Command::VolumeUp,
        Command::VolumeDown,
        Command::NavigateDown,
        Command::NavigateUp,
        Command::Play,
        Command::CyclePanel,
        Command::GenrePrev,
        Command::GenreNext,
        Command::LoadMore,
        Command::PerfToggle,
        Command::PerfTickSlower,
        Command::PerfTickFaster,
        Command::SmoothingDown,
        Command::SmoothingUp,
    ]
}

/// How many commands there are.
pub const COMMANDS: usize = 24;

/// How many of them, from the start, can be bound to other keys.
pub const ACTIONS: usize = 22;

/// The command at a place in the order.
fn command_at(i: usize) -> (command: Command)
    requires
        i < COMMANDS,
    ensures
        command == commands()[i as int],
{
    match i {
        0 => Command::Quit,
        1 => Command::Help,
        2 => Command::StationDetail,
        3 => Command::Settings,
        4 => Command::GenrePicker,
        5 => Command::ThemePicker,
        6 => Command::VisualizerToggle,
        7 => Command::Search,
        8 => Command::Stop,
        9 => Command::ToggleFavorite,
        10 => Command::VolumeUp,
        11 => Command::VolumeDown,
        12 => Command::NavigateDown,
        13 => Command::NavigateUp,
        14 => Command::Play,
        15 => Command::CyclePanel,
        16 => Command::GenrePrev,
        17 => Command::GenreNext,
        18 => Command::LoadMore,
        19 => Command::PerfToggle,
        20 => Command::PerfTickSlower,
        21 => Command::PerfTickFaster,
        22 => Command::SmoothingDown,
        _ => Command::SmoothingUp,
    }
}

/// The keys of all commands that can be bound.
#[derive(Clone, Copy, Debug)]
pub struct KeyBindings {
    pub quit: Binding,
    pub help: Binding,
    pub station_detail: Binding,
    pub settings: Binding,
    pub genre_picker: Binding,
    pub theme_picker: Binding,
    pub visualizer_toggle: Binding,
    pub search: Binding,
    pub stop: Binding,
    pub toggle_favorite: Binding,
    pub volume_up: Binding,
    pub volume_down: Binding,
    pub navigate_down: Binding,
    pub navigate_up: Binding,
    pub play: Binding,
    pub cycle_panel: Binding,
    pub genre_prev: Binding,
    pub genre_next: Binding,
    pub load_more: Binding,
    pub perf_toggle: Binding,
    pub perf_tick_slower: Binding,
    pub perf_tick_faster: Binding,
}

impl KeyBindings {
    /// The keys of a command.
    pub open spec fn of(self, command: Command) -> Binding {
        match command {
            Command::Quit => self.quit,
            Command::Help => self.help,
            Command::StationDetail => self.station_detail,
            Command::Settings => self.settings,
            Command::GenrePicker => self.genre_picker,
            Command::ThemePicker => self.theme_picker,
            Command::VisualizerToggle => self.visualizer_toggle,
            Command::Search => self.search,
            Command::Stop => self.stop,
            Command::ToggleFavorite => self.toggle_favorite,
            Command::VolumeUp => self.volume_up,
            Command::VolumeDown => self.volume_down,
            Command::NavigateDown => self.navigate_down,
            Command::NavigateUp => self.navigate_up,
            Command::Play => self.play,
            Command::CyclePanel => self.cycle_panel,
            Command::GenrePrev => self.genre_prev,
            Command::GenreNext => self.genre_next,
            Command::LoadMore => self.load_more,
            Command::PerfToggle => self.perf_toggle,
            Command::PerfTickSlower => self.perf_tick_slower,
            Command::PerfTickFaster => self.perf_tick_faster,
            Command::SmoothingDown => Binding { primary: Key::Char('{'), alt: None },
            Command::SmoothingUp => Binding { primary: Key::Char('}'), alt: None },
        }
    }

    /// The same with other keys for one command.
    pub open spec fn with(self, command: Command, binding: Binding) -> KeyBindings {
        match command {
            Command::Quit => KeyBindings { quit: binding, ..self },
            Command::Help => KeyBindings { help: binding, ..self },
            Command::StationDetail => KeyBindings { station_detail: binding, ..self },
            Command::Settings => KeyBindings { settings: binding, ..self },
            Command::GenrePicker => KeyBindings { genre_picker: binding, ..self },
            Command::ThemePicker => KeyBindings { theme_picker: binding, ..self },
            Command::VisualizerToggle => KeyBindings { visualizer_toggle: binding, ..self },
            Command::Search => KeyBindings { search: binding, ..self },
            Command::Stop => KeyBindings { stop: binding, ..self },
            Command::ToggleFavorite => KeyBindings { toggle_favorite: binding, ..self },
            Command::VolumeUp => KeyBindings { volume_up: binding, ..self },
            Command::VolumeDown => KeyBindings { volume_down: binding, ..self },
            Command::NavigateDown => KeyBindings { navigate_down: binding, ..self },
            Command::NavigateUp => KeyBindings { navigate_up: binding, ..self },
            Command::Play => KeyBindings { play: binding, ..self },
            Command::CyclePanel => KeyBindings { cycle_panel: binding, ..self },
            Command::GenrePrev => KeyBindings { genre_prev: binding, ..self },
            Command::GenreNext => KeyBindings { genre_next: binding, ..self },
            Command::LoadMore => KeyBindings { load_more: binding, ..self },
            Command::PerfToggle => KeyBindings { perf_toggle: binding, ..self },
            Command::PerfTickSlower => KeyBindings { perf_tick_slower: binding, ..self },
            Command::PerfTickFaster => KeyBindings { perf_tick_faster: binding, ..self },
            Command::SmoothingDown => self,
            Command::SmoothingUp => self,
        }
    }

    /// The keys of a command.
    pub fn get(&self, command: Command) -> (binding: Binding)
        ensures
            binding == self.of(command),
    {
        match command {
            Command::Quit => self.quit,
            Command::Help => self.help,
            Command::StationDetail => self.station_detail,
            Command::Settings => self.settings,
            Command::GenrePicker => self.genre_picker,
            Command::ThemePicker => self.theme_picker,
            Command::VisualizerToggle => self.visualizer_toggle,
            Command::Search => self.search,
            Command::Stop => self.stop,
            Command::ToggleFavorite => self.toggle_favorite,
            Command::VolumeUp => self.volume_up,
            Command::VolumeDown => self.volume_down,
            Command::NavigateDown => self.navigate_down,
            Command::NavigateUp => self.navigate_up,
            Command::Play => self.play,
            Command::CyclePanel => self.cycle_panel,
            Command::GenrePrev => self.genre_prev,
            Command::GenreNext => self.genre_next,
            Command::LoadMore => self.load_more,
            Command::PerfToggle => self.perf_toggle,
            Command::PerfTickSlower => self.perf_tick_slower,
            Command::PerfTickFaster => self.perf_tick_faster,
            Command::SmoothingDown => Binding { primary: Key::Char('{'), alt: None },
            Command::SmoothingUp => Binding { primary: Key::Char('}'), alt: None },
        }
    }

    /// Binds a command to other keys. The two that cannot be bound stay as they
    /// are.
    pub fn set_binding(&mut self, command: Command, primary: Key, alt: Option<Key>)
        ensures
            *final(self) == old(self).with(command, (Binding { primary, alt })),
    {
        let binding = Binding { primary, alt };
        match command {
            Command::Quit => {
                self.quit = binding;
            },
            Command::Help => {
                self.help = binding;
            },
            Command::StationDetail => {
                self.station_detail = binding;
            },
            Command::Settings => {
                self.settings = binding;
            },
            Command::GenrePicker => {
                self.genre_picker = binding;
            },
            Command::ThemePicker => {
                self.theme_picker = binding;
            },
            Command::VisualizerToggle => {
                self.visualizer_toggle = binding;
            },
            Command::Search => {
                self.search = binding;
            },
            Command::Stop => {
                self.stop = binding;
            },
            Command::ToggleFavorite => {
                self.toggle_favorite = binding;
            },
            Command::VolumeUp => {
                self.volume_up = binding;
            },
            Command::VolumeDown => {
                self.volume_down = binding;
            },
            Command::NavigateDown => {
                self.navigate_down = binding;
            },
            Command::NavigateUp => {
                self.navigate_up = binding;
            },
            Command::Play => {
                self.play = binding;
            },
            Command::CyclePanel => {
                self.cycle_panel = binding;
            },
            Command::GenrePrev => {
                self.genre_prev = binding;
            },
            Command::GenreNext => {
                self.genre_next = binding;
            },
            Command::LoadMore => {
                self.load_more = binding;
            },
            Command::PerfToggle => {
                self.perf_toggle = binding;
            },
            Command::PerfTickSlower => {
                self.perf_tick_slower = binding;
            },
            Command::PerfTickFaster => {
                self.perf_tick_faster = binding;
            },
            Command::SmoothingDown => {},
            Command::SmoothingUp => {},
        }
    }

    /// The command in a row of the list of bindings.
    pub fn key_at_index(&self, index: usize) -> (command: Option<Command>)
        ensures
            command == (if index < ACTIONS {
                Some(commands()[index as int])
            } else {
                None
            }),
    {
        if index < ACTIONS {
            Some(command_at(index))
        } else {
            None
        }
    }

    /// `key` calls for `command`. Some commands exist only while the profiler
    /// is shown. Tab with shift held reaches us as a key of its own, and always
    /// goes back one genre.
    pub open spec fn calls_for(self, key: Key, show_perf: bool, command: Command) -> bool {
        match command {
            Command::GenrePrev => key is BackTab || self.of(command).has(key),
            Command::PerfTickSlower | Command::PerfTickFaster | Command::SmoothingDown
            | Command::SmoothingUp => show_perf && self.of(command).has(key),
            _ => self.of(command).has(key),
        }
    }

    /// The first command, from place `i` on, that `key` calls for.
    pub open spec fn command_from(self, key: Key, show_perf: bool, i: int) -> Option<Command>
        decreases COMMANDS - i,
    {
        if i >= COMMANDS {
            None
        } else if self.calls_for(key, show_perf, commands()[i]) {
            Some(commands()[i])
        } else {
            self.command_from(key, show_perf, i + 1)
        }
    }

    /// Whether `key` calls for `command`.
    fn is_called(&self, key: Key, show_perf: bool, command: Command) -> (yes: bool)
        ensures
            yes == self.calls_for(key, show_perf, command),
    {
        let bound = self.get(command).matches(key);
        match command {
            Command::GenrePrev => key == Key::BackTab || bound,
            Command::PerfTickSlower | Command::PerfTickFaster | Command::SmoothingDown
            | Command::SmoothingUp => show_perf && bound,
            _ => bound,
        }
    }

    /// The command that `key` calls for, if any.
    pub fn command_for(&self, key: Key, show_perf: bool) -> (command: Option<Command>)
        ensures
            command == self.command_from(key, show_perf, 0),
    {
        let mut i: usize = 0;
        while i < COMMANDS
            invariant
                i <= COMMANDS,
                self.command_from(key, show_perf, 0) == self.command_from(key, show_perf, i as int),
            decreases COMMANDS - i,
        {
            let command = command_at(i);
            if self.is_called(key, show_perf, command) {
                return Some(command);
            }
            i += 1;
        }
        None
    }
}

/// Every command has exactly one place in the order.
pub proof fn law_every_command_has_one_place(command: Command)
    ensures
        exists|i: int| 0 <= i < COMMANDS && commands()[i] == command,
        forall|i: int, j: int|
            0 <= i < COMMANDS && 0 <= j < COMMANDS && commands()[i] == command && commands()[j]
                == command ==> i == j,
{
    let order = commands();
    assert(order[0] == Command::Quit);
    assert(order[1] == Command::Help);
    assert(order[2] == Command::StationDetail);
    assert(order[3] == Command::Settings);
    assert(order[4] == Command::GenrePicker);
    assert(order[5] == Command::ThemePicker);
    assert(order[6] == Command::VisualizerToggle);
    assert(order[7] == Command::Search);
    assert(order[8] == Command::Stop);
    assert(order[9] == Command::ToggleFavorite);
    assert(order[10] == Command::VolumeUp);
    assert(order[11] == Command::VolumeDown);
    assert(order[12] == Command::NavigateDown);
    assert(order[13] == Command::NavigateUp);
    assert(order[14] == Command::Play);
    assert(order[15] == Command::CyclePanel);
    assert(order[16] == Command::GenrePrev);
    assert(order[17] == Command::GenreNext);
    assert(order[18] == Command::LoadMore);
    assert(order[19] == Command::PerfToggle);
    assert(order[20] == Command::PerfTickSlower);
    assert(order[21] == Command::PerfTickFaster);
    assert(order[22] == Command::SmoothingDown);
    assert(order[23] == Command::SmoothingUp);
}

/// Binding one command to other keys gives it those keys, and leaves every
/// other command alone.
pub proof fn law_rebinding_changes_one_command(
    bindings: KeyBindings,
    command: Command,
    binding: Binding,
    other: Command,
)
    requires
        !(command is SmoothingDown || command is SmoothingUp),
    ensures
        bindings.with(command, binding).of(command) == binding,
        other != command ==> bindings.with(command, binding).of(other) == bindings.of(other),
{
}

/// A key calls for the command that it is bound to and that comes first.
pub proof fn law_first_command_wins(bindings: KeyBindings, key: Key, show_perf: bool, i: int)
    requires
        0 <= i < COMMANDS,
        bindings.calls_for(key, show_perf, commands()[i]),
        forall|j: int| 0 <= j < i ==> !bindings.calls_for(key, show_perf, commands()[j]),
    ensures
        bindings.command_from(key, show_perf, 0) == Some(commands()[i]),
{
    lemma_first_from(bindings, key, show_perf, i, 0);
}

proof fn lemma_first_from(bindings: KeyBindings, key: Key, show_perf: bool, i: int, from: int)
    requires
        0 <= from <= i < COMMANDS,
        bindings.calls_for(key, show_perf, commands()[i]),
        forall|j: int| 0 <= j < i ==> !bindings.calls_for(key, show_perf, commands()[j]),
    ensures
        bindings.command_from(key, show_perf, from) == Some(commands()[i]),
    decreases i - from,
{
    if from < i {
        lemma_first_from(bindings, key, show_perf, i, from + 1);
    }
}

/// A binding matches its primary key and its alternative key, and no other key.
pub proof fn law_a_binding_matches_its_two_keys(binding: &Binding, key: Key, yes: bool)
    requires
        call_ensures(Binding::matches, (binding, key), yes),
    ensures
        yes <==> key == binding.primary || binding.alt == Some(key),
{
}

/// Every command that can be bound has keys of its own to look up, and the two
/// that cannot be bound are on the braces.
pub proof fn law_each_command_has_its_own_keys(bindings: &KeyBindings, command: Command, binding: Binding)
    requires
        call_ensures(KeyBindings::get, (bindings, command), binding),
    ensures
        command is Quit ==> binding == bindings.quit,
        command is Help ==> binding == bindings.help,
        command is StationDetail ==> binding == bindings.station_detail,
        command is Settings ==> binding == bindings.settings,
        command is GenrePicker ==> binding == bindings.genre_picker,
        command is ThemePicker ==> binding == bindings.theme_picker,
        command is VisualizerToggle ==> binding == bindings.visualizer_toggle,
        command is Search ==> binding == bindings.search,
        command is Stop ==> binding == bindings.stop,
        command is ToggleFavorite ==> binding == bindings.toggle_favorite,
        command is VolumeUp ==> binding == bindings.volume_up,
        command is VolumeDown ==> binding == bindings.volume_down,
        command is NavigateDown ==> binding == bindings.navigate_down,
        command is NavigateUp ==> binding == bindings.navigate_up,
        command is Play ==> binding == bindings.play,
        command is CyclePanel ==> binding == bindings.cycle_panel,
        command is GenrePrev ==> binding == bindings.genre_prev,
        command is GenreNext ==> binding == bindings.genre_next,
        command is LoadMore ==> binding == bindings.load_more,
        command is PerfToggle ==> binding == bindings.perf_toggle,
        command is PerfTickSlower ==> binding == bindings.perf_tick_slower,
        command is PerfTickFaster ==> binding == bindings.perf_tick_faster,
        command is SmoothingDown ==> binding.primary == Key::Char('{') && binding.alt is None,
        command is SmoothingUp ==> binding.primary == Key::Char('}') && binding.alt is None,
{
}

/// A command that was bound has exactly the keys that it was bound to, and all
/// other commands have the keys that they had.
pub proof fn law_binding_sets_the_keys_of_one_command(
    bindings: &mut KeyBindings,
    command: Command,
    primary: Key,
    alt: Option<Key>,
)
    requires
        call_ensures(KeyBindings::set_binding, (bindings, command, primary, alt), ()),
    ensures
        final(bindings).quit == (if command is Quit {
            Binding { primary, alt }
        } else {
            old(bindings).quit
        }),
        final(bindings).help == (if command is Help {
            Binding { primary, alt }
        } else {
            old(bindings).help
        }),
        final(bindings).station_detail == (if command is StationDetail {
            Binding { primary, alt }
        } else {
            old(bindings).station_detail
        }),
        final(bindings).settings == (if command is Settings {
            Binding { primary, alt }
        } else {
            old(bindings).settings
        }),
        final(bindings).genre_picker == (if command is GenrePicker {
            Binding { primary, alt }
        } else {
            old(bindings).genre_picker
        }),
        final(bindings).theme_picker == (if command is ThemePicker {
            Binding { primary, alt }
        } else {
            old(bindings).theme_picker
        }),
        final(bindings).visualizer_toggle == (if command is VisualizerToggle {
            Binding { primary, alt }
        } else {
            old(bindings).visualizer_toggle
        }),
        final(bindings).search == (if command is Search {
            Binding { primary, alt }
        } else {
            old(bindings).search
        }),
        final(bindings).stop == (if command is Stop {
            Binding { primary, alt }
        } else {
            old(bindings).stop
        }),
        final(bindings).toggle_favorite == (if command is ToggleFavorite {
            Binding { primary, alt }
        } else {
            old(bindings).toggle_favorite
        }),
        final(bindings).volume_up == (if command is VolumeUp {
            Binding { primary, alt }
        } else {
            old(bindings).volume_up
        }),
        final(bindings).volume_down == (if command is VolumeDown {
            Binding { primary, alt }
        } else {
            old(bindings).volume_down
        }),
        final(bindings).navigate_down == (if command is NavigateDown {
            Binding { primary, alt }
        } else {
            old(bindings).navigate_down
        }),
        final(bindings).navigate_up == (if command is NavigateUp {
            Binding { primary, alt }
        } else {
            old(bindings).navigate_up
        }),
        final(bindings).play == (if command is Play {
            Binding { primary, alt }
        } else {
            old(bindings).play
        }),
        final(bindings).cycle_panel == (if command is CyclePanel {
            Binding { primary, alt }
        } else {
            old(bindings).cycle_panel
        }),
        final(bindings).genre_prev == (if command is GenrePrev {
            Binding { primary, alt }
        } else {
            old(bindings).genre_prev
        }),
        final(bindings).genre_next == (if command is GenreNext {
            Binding { primary, alt }
        } else {
            old(bindings).genre_next
        }),
        final(bindings).load_more == (if command is LoadMore {
            Binding { primary, alt }
        } else {
            old(bindings).load_more
        }),
        final(bindings).perf_toggle == (if command is PerfToggle {
            Binding { primary, alt }
        } else {
            old(bindings).perf_toggle
        }),
        final(bindings).perf_tick_slower == (if command is PerfTickSlower {
            Binding { primary, alt }
        } else {
            old(bindings).perf_tick_slower
        }),
        final(bindings).perf_tick_faster == (if command is PerfTickFaster {
            Binding { primary, alt }
        } else {
            old(bindings).perf_tick_faster
        }),
{
}

/// The rows of the settings: all commands that can be bound, each in a row of
/// its own, and nothing behind them.
pub proof fn law_rows_of_the_settings(bindings: &KeyBindings, row: usize, command: Option<Command>)
    requires
        call_ensures(KeyBindings::key_at_index, (bindings, row), command),
    ensures
        row == 0 <==> command == Some(Command::Quit),
        row == 1 <==> command == Some(Command::Help),
        row == 2 <==> command == Some(Command::StationDetail),
        row == 3 <==> command == Some(Command::Settings),
        row == 4 <==> command == Some(Command::GenrePicker),
        row == 5 <==> command == Some(Command::ThemePicker),
        row == 6 <==> command == Some(Command::VisualizerToggle),
        row == 7 <==> command == Some(Command::Search),
        row == 8 <==> command == Some(Command::Stop),
        row == 9 <==> command == Some(Command::ToggleFavorite),
        row == 10 <==> command == Some(Command::VolumeUp),
        row == 11 <==> command == Some(Command::VolumeDown),
        row == 12 <==> command == Some(Command::NavigateDown),
        row == 13 <==> command == Some(Command::NavigateUp),
        row == 14 <==> command == Some(Command::Play),
        row == 15 <==> command == Some(Command::CyclePanel),
        row == 16 <==> command == Some(Command::GenrePrev),
        row == 17 <==> command == Some(Command::GenreNext),
        row == 18 <==> command == Some(Command::LoadMore),
        row == 19 <==> command == Some(Command::PerfToggle),
        row == 20 <==> command == Some(Command::PerfTickSlower),
        row == 21 <==> command == Some(Command::PerfTickFaster),
        row >= 22 <==> command is None,
{
    lemma_order_of_commands();
}

proof fn lemma_order_of_commands()
    ensures
        commands()[0] == Command::Quit,
        commands()[1] == Command::Help,
        commands()[2] == Command::StationDetail,
        commands()[3] == Command::Settings,
        commands()[4] == Command::GenrePicker,
        commands()[5] == Command::ThemePicker,
        commands()[6] == Command::VisualizerToggle,
        commands()[7] == Command::Search,
        commands()[8] == Command::Stop,
        commands()[9] == Command::ToggleFavorite,
        commands()[10] == Command::VolumeUp,
        commands()[11] == Command::VolumeDown,
        commands()[12] == Command::NavigateDown,
        commands()[13] == Command::NavigateUp,
        commands()[14] == Command::Play,
        commands()[15] == Command::CyclePanel,
        commands()[16] == Command::GenrePrev,
        commands()[17] == Command::GenreNext,
        commands()[18] == Command::LoadMore,
        commands()[19] == Command::PerfToggle,
        commands()[20] == Command::PerfTickSlower,
        commands()[21] == Command::PerfTickFaster,
        commands()[22] == Command::SmoothingDown,
        commands()[23] == Command::SmoothingUp,
        commands().len() == 24,
{
}

/// Which command a key calls for, where it is bound to several: quitting comes
/// before everything else, then the overlays, the visualizer, the search, the
/// player, the list of stations and the genres. Tab with shift goes back one
/// genre unless it is bound to a command before that. What belongs to the
/// profiler comes last, and only while the profiler is shown. A key that is
/// bound to nothing calls for nothing.
pub proof fn law_precedence_of_commands(
    bindings: &KeyBindings,
    key: Key,
    show_perf: bool,
    command: Option<Command>,
)
    requires
        call_ensures(KeyBindings::command_for, (bindings, key, show_perf), command),
    ensures
        ({
            let on = |b: Binding| b.primary == key || b.alt == Some(key);
            command == (
            if on(bindings.quit) {
                Some(Command::Quit)
            } else if on(bindings.help) {
                Some(Command::Help)
            } else if on(bindings.station_detail) {
                Some(Command::StationDetail)
            } else if on(bindings.settings) {
                Some(Command::Settings)
            } else if on(bindings.genre_picker) {
                Some(Command::GenrePicker)
            } else if on(bindings.theme_picker) {
                Some(Command::ThemePicker)
            } else if on(bindings.visualizer_toggle) {
                Some(Command::VisualizerToggle)
            } else if on(bindings.search) {
                Some(Command::Search)
            } else if on(bindings.stop) {
                Some(Command::Stop)
            } else if on(bindings.toggle_favorite) {
                Some(Command::ToggleFavorite)
            } else if on(bindings.volume_up) {
                Some(Command::VolumeUp)
            } else if on(bindings.volume_down) {
                Some(Command::VolumeDown)
            } else if on(bindings.navigate_down) {
                Some(Command::NavigateDown)
            } else if on(bindings.navigate_up) {
                Some(Command::NavigateUp)
            } else if on(bindings.play) {
                Some(Command::Play)
            } else if on(bindings.cycle_panel) {
                Some(Command::CyclePanel)
            } else if key == Key::BackTab || on(bindings.genre_prev) {
                Some(Command::GenrePrev)
            } else if on(bindings.genre_next) {
                Some(Command::GenreNext)
            } else if on(bindings.load_more) {
                Some(Command::LoadMore)
            } else if on(bindings.perf_toggle) {
                Some(Command::PerfToggle)
            } else if show_perf && on(bindings.perf_tick_slower) {
                Some(Command::PerfTickSlower)
            } else if show_perf && on(bindings.perf_tick_faster) {
                Some(Command::PerfTickFaster)
            } else if show_perf && key == Key::Char('{') {
                Some(Command::SmoothingDown)
            } else if show_perf && key == Key::Char('}') {
                Some(Command::SmoothingUp)
            } else {
                None
            })
        }),
{
    lemma_order_of_commands();
    reveal_with_fuel(KeyBindings::command_from, 25);
}

/// Any key can be looked up, any command bound and any row asked for.
pub proof fn law_any_key_can_be_looked_up(
    binding: &Binding,
    bindings: &mut KeyBindings,
    command: Command,
    key: Key,
    alt: Option<Key>,
    row: usize,
    show_perf: bool,
)
    ensures
        call_requires(Binding::matches, (binding, key)),
        call_requires(KeyBindings::get, (&*old(bindings), command)),
        call_requires(KeyBindings::set_binding, (bindings, command, key, alt)),
        call_requires(KeyBindings::key_at_index, (&*old(bindings), row)),
        call_requires(KeyBindings::command_for, (&*old(bindings), key, show_perf)),
{
}

} // verus!
