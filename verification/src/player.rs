//! The player: what it knows of mpv, and what is to be done next.
//!
//! A [`Player`] starts no process and opens no connection. Its methods take
//! what has happened (a connection came up, a line arrived), bring the state up
//! to date and hand back what is to be carried out: actions, in order, and
//! lines to write to mpv.
use crate::mpv_ipc::{
    extract_media_title, media_title, parse_stream_info, StreamInfo, StreamInfoView,
};
use crate::text::{contains, contains_text, decimal, decode_line, line_of, push_decimal, to_chars};
use std::time::Instant;
use vstd::prelude::*;
use vstd::string::*;

verus! {

/// The system the player runs on.
#[derive(Clone, Copy, Debug, PartialEq, Eq, Structural)]
pub enum Platform {
    Linux,
    MacOs,
    Windows,
}

/// Something to be carried out for the player.
#[derive(Clone, Copy, Debug, PartialEq, Eq, Structural)]
pub enum Action {
    /// Give up the connection to mpv for writing, and any attempt to make one.
    Disconnect,
    /// End the capture process and all that it started.
    KillCapture,
    /// Remove the FIFO that the capture process writes to.
    RemoveFifo,
    /// Raise the flag on which the capture thread ends.
    SignalCapture,
    /// Wait for the thread that reads captured audio, but no longer than this.
    JoinCapture { limit_ms: u64 },
    /// Put the audio analysis back to silence.
    ClearAnalysis,
    /// End mpv.
    KillMpv,
    /// Wait for the thread that reads the pipe, but no longer than this.
    JoinPipeReader { limit_ms: u64 },
    /// Remove the socket file.
    RemoveSocket,
    /// Tie the life of mpv to that of this program.
    AssignJob,
    /// Start connecting to mpv in the background.
    Connect { generation: u64 },
    /// Start capturing audio.
    StartCapture,
    /// Drop the connection to mpv altogether: the other end is gone.
    Hangup,
}

/// What has become of the attempt to connect that is under way.
#[derive(Clone, Copy, Debug, PartialEq, Eq, Structural)]
pub enum ConnectStatus {
    /// Still trying.
    Pending,
    /// The attempt that was started for this generation has a connection.
    Ready { generation: u64 },
    /// It has given up.
    Failed,
}

/// How starting the audio capture went.
#[derive(Clone, Copy, Debug, PartialEq, Eq, Structural)]
pub enum CaptureOutcome {
    /// There was nothing to capture into.
    NoFifo,
    /// The capture did not start.
    Refused,
    /// It is running.
    Running,
}

/// The byte that ends a line.
pub const LINE_BREAK: u8 = 10;

/// What reading from mpv's socket up to the end of a line gave. The bytes of a
/// piece need not be text: it may end in the middle of a character.
pub enum ReadEvent {
    /// This much, then a line break or the end of the stream.
    Data(Vec<u8>),
    /// Nothing: the stream has ended.
    Eof,
    /// This much, and no more has arrived yet.
    WouldBlock(Vec<u8>),
    /// An error.
    Failed,
}

/// What follows from a read.
pub enum ReadStep {
    /// A line is complete; read on.
    Line(String),
    /// The connection is at its end.
    Closed,
    /// There is nothing more to read for now.
    Idle,
}

/// The contents of a [`ReadEvent`].
pub enum ReadEventView {
    Data(Seq<u8>),
    Eof,
    WouldBlock(Seq<u8>),
    Failed,
}

/// The contents of a [`ReadStep`].
pub enum ReadStepView {
    Line(Seq<char>),
    Closed,
    Idle,
}

impl View for ReadEvent {
    type V = ReadEventView;

    open spec fn view(&self) -> ReadEventView {
        match self {
            ReadEvent::Data(bytes) => ReadEventView::Data(bytes@),
            ReadEvent::Eof => ReadEventView::Eof,
            ReadEvent::WouldBlock(bytes) => ReadEventView::WouldBlock(bytes@),
            ReadEvent::Failed => ReadEventView::Failed,
        }
    }
}

impl View for ReadStep {
    type V = ReadStepView;

    open spec fn view(&self) -> ReadStepView {
        match self {
            ReadStep::Line(text) => ReadStepView::Line(text@),
            ReadStep::Closed => ReadStepView::Closed,
            ReadStep::Idle => ReadStepView::Idle,
        }
    }
}

/// The player's state.
pub struct Player {
    pub platform: Platform,
    /// Where mpv listens: a socket path or the name of a pipe.
    pub ipc_server: String,
    /// Whether the tool or interface that audio is captured with was found.
    pub has_capture_tool: bool,
    /// Whether mpv has been started.
    pub process: bool,
    /// Whether audio is being captured.
    pub capture: bool,
    /// Whether an attempt to connect to mpv is under way.
    pub connecting: bool,
    /// Whether commands can be written to mpv.
    pub writer: bool,
    /// Whether lines can be read from mpv.
    pub reader: bool,
    /// The line that has arrived only in part, as bytes: its last character may
    /// be cut.
    pub line_buf: Vec<u8>,
    /// Counts the streams torn down. An attempt to connect carries the number
    /// that it was started under, so that one that comes too late is known.
    pub ipc_generation: u64,
    /// Counts the polls.
    pub request_counter: u64,
    /// Stand-in for the loudness where audio is not captured, in hundredths.
    pub audio_level: u8,
    pub media_title: Option<String>,
    pub stream_info: StreamInfo,
    /// Whether the visualizer is on (controls capture startup).
    pub visualizer_enabled: bool,
}

/// The contents of a [`Player`].
pub struct PlayerView {
    pub platform: Platform,
    pub ipc_server: Seq<char>,
    pub has_capture_tool: bool,
    pub process: bool,
    pub capture: bool,
    pub connecting: bool,
    pub writer: bool,
    pub reader: bool,
    pub line_buf: Seq<u8>,
    pub ipc_generation: u64,
    pub request_counter: u64,
    pub audio_level: u8,
    pub media_title: Option<Seq<char>>,
    pub stream_info: StreamInfoView,
    pub visualizer_enabled: bool,
}

impl View for Player {
    type V = PlayerView;

    open spec fn view(&self) -> PlayerView {
        PlayerView {
            platform: self.platform,
            ipc_server: self.ipc_server@,
            has_capture_tool: self.has_capture_tool,
            process: self.process,
            capture: self.capture,
            connecting: self.connecting,
            writer: self.writer,
            reader: self.reader,
            line_buf: self.line_buf@,
            ipc_generation: self.ipc_generation,
            request_counter: self.request_counter,
            audio_level: self.audio_level,
            media_title: match self.media_title {
                Some(title) => Some(title@),
                None => None,
            },
            stream_info: self.stream_info@,
            visualizer_enabled: self.visualizer_enabled,
        }
    }
}

/// The texts of a list of strings.
pub open spec fn texts(list: Seq<String>) -> Seq<Seq<char>> {
    list.map_values(|s: String| s@)
}

/// A command as mpv expects it: on a line of its own.
pub open spec fn on_a_line(command: Seq<char>) -> Seq<char> {
    command.push('\n')
}

/// The arguments mpv is started with.
pub open spec fn mpv_arguments(server: Seq<char>, url: Seq<char>, volume: u32) -> Seq<Seq<char>> {
    seq![
        url,
        "--no-video"@,
        "--volume="@ + decimal(volume as nat),
        "--input-ipc-server="@ + server,
    ]
}

/// The command that sets the volume.
pub open spec fn volume_command(volume: u32) -> Seq<char> {
    "{ \"command\": [\"set_property\", \"volume\", "@ + decimal(volume as nat) + "] }"@
}

/// The commands that ask mpv to report title, codec, sample rate and channels
/// whenever they change.
pub open spec fn observe_commands() -> Seq<char> {
    "{ \"command\": [\"observe_property\", 1, \"media-title\"] }\n{ \"command\": [\"observe_property\", 2, \"audio-codec-name\"] }\n{ \"command\": [\"observe_property\", 3, \"audio-params/samplerate\"] }\n{ \"command\": [\"observe_property\", 4, \"audio-params/channel-count\"] }"@
}

/// The command that asks for the playback position.
pub open spec fn position_command() -> Seq<char> {
    "{ \"command\": [\"get_property\", \"audio-pts\"], \"request_id\": 100 }"@
}

/// The command that asks for the bitrate.
pub open spec fn bitrate_command() -> Seq<char> {
    "{ \"command\": [\"get_property\", \"audio-bitrate\"], \"request_id\": 200 }"@
}

/// The command that asks how much audio is buffered.
pub open spec fn cache_command() -> Seq<char> {
    "{ \"command\": [\"get_property\", \"demuxer-cache-duration\"], \"request_id\": 201 }"@
}

/// The line counts as an answer to the question for the playback position: the
/// number of its request begins with that of the question, it carries data, and
/// it speaks of no error.
pub open spec fn tells_position(line: Seq<char>) -> bool {
    &&& contains(line, "\"request_id\":100"@) || contains(line, "\"request_id\": 100"@)
    &&& contains(line, "\"data\":"@)
    &&& !contains(line, "\"error\""@)
}

/// The last title that is not empty among `lines`, else `current`.
pub open spec fn latest_title(lines: Seq<Seq<char>>, current: Option<Seq<char>>) -> Option<Seq<char>>
    decreases lines.len(),
{
    if lines.len() == 0 {
        current
    } else {
        match media_title(lines.last()) {
            Some(title) if title.len() > 0 => Some(title),
            _ => latest_title(lines.drop_last(), current),
        }
    }
}

/// What is known of the stream after `lines`, one by one.
pub open spec fn info_after(info: StreamInfoView, lines: Seq<Seq<char>>) -> StreamInfoView
    decreases lines.len(),
{
    if lines.len() == 0 {
        info
    } else {
        info_after(info, lines.drop_last()).after_line(lines.last())
    }
}

impl PlayerView {
    /// What holds of a player at all times.
    pub open spec fn wf(self) -> bool {
        &&& self.capture ==> self.process
        &&& self.connecting ==> self.process && !self.reader
        &&& self.writer ==> self.reader
        &&& self.reader ==> self.process
        &&& !self.reader ==> self.line_buf.len() == 0
        &&& self.process <==> self.stream_info.stream_connected_at is Some
        &&& !self.process ==> {
            &&& self.media_title is None
            &&& self.audio_level == 0
            &&& self.stream_info == StreamInfoView::unknown()
        }
    }

    /// Audio could be captured on this system.
    pub open spec fn can_capture(self) -> bool {
        self.platform is Windows || self.has_capture_tool
    }

    /// The state once playback has been stopped.
    pub open spec fn stopped(self) -> PlayerView {
        PlayerView {
            process: false,
            capture: false,
            connecting: false,
            writer: false,
            reader: false,
            line_buf: Seq::empty(),
            ipc_generation: (if self.ipc_generation == u64::MAX {
                0
            } else {
                self.ipc_generation + 1
            }) as u64,
            audio_level: 0,
            media_title: None,
            stream_info: StreamInfoView::unknown(),
            ..self
        }
    }

    /// How the audio capture is brought to an end.
    pub open spec fn end_capture_actions(self) -> Seq<Action> {
        if self.platform is Linux {
            if self.capture {
                seq![
                    Action::KillCapture,
                    Action::RemoveFifo,
                    Action::JoinCapture { limit_ms: 200 },
                    Action::ClearAnalysis,
                ]
            } else {
                seq![Action::ClearAnalysis]
            }
        } else if self.capture {
            seq![Action::SignalCapture, Action::JoinCapture { limit_ms: 300 }, Action::ClearAnalysis]
        } else {
            seq![Action::SignalCapture, Action::ClearAnalysis]
        }
    }

    /// How playback is stopped: the connection goes first, mpv before the
    /// thread that waits for its output.
    pub open spec fn stop_actions(self) -> Seq<Action> {
        seq![Action::Disconnect] + self.end_capture_actions() + (if self.process {
            seq![Action::KillMpv]
        } else {
            Seq::empty()
        }) + (if self.platform is Windows && self.reader {
            seq![Action::JoinPipeReader { limit_ms: 300 }]
        } else {
            Seq::empty()
        }) + seq![Action::RemoveSocket]
    }

    /// The state once mpv has been started.
    pub open spec fn started(self, now: Instant) -> PlayerView {
        PlayerView {
            process: true,
            connecting: true,
            media_title: None,
            stream_info: StreamInfoView {
                stream_connected_at: Some(now),
                ..StreamInfoView::unknown()
            },
            ..self
        }
    }

    /// What follows the start of mpv.
    pub open spec fn start_actions(self) -> Seq<Action> {
        (if self.platform is Windows {
            seq![Action::AssignJob]
        } else {
            Seq::empty()
        }) + seq![Action::Connect { generation: self.ipc_generation }] + (if self.can_capture()
            && self.visualizer_enabled {
            seq![Action::StartCapture]
        } else {
            Seq::empty()
        })
    }

    /// Capture is to be started anew.
    pub open spec fn may_restart_capture(self) -> bool {
        !self.capture && self.process && self.can_capture()
    }

    /// A connection for the current stream has just come up.
    pub open spec fn connects(self, status: ConnectStatus) -> bool {
        self.connecting && status == (ConnectStatus::Ready { generation: self.ipc_generation })
    }

    /// The state once a poll has begun.
    pub open spec fn polled(self, status: ConnectStatus) -> PlayerView {
        PlayerView {
            request_counter: (self.request_counter + 1) as u64,
            connecting: self.connecting && status is Pending,
            writer: self.writer || self.connects(status),
            reader: self.reader || self.connects(status),
            ..self
        }
    }

    /// The commands that a poll sends.
    pub open spec fn poll_commands(self, status: ConnectStatus) -> Seq<Seq<char>> {
        let next = self.polled(status);
        if !next.writer {
            Seq::empty()
        } else {
            (if self.connects(status) {
                seq![on_a_line(observe_commands())]
            } else {
                Seq::empty()
            }) + (if !self.capture && next.request_counter % 3 == 0 {
                seq![on_a_line(position_command())]
            } else {
                Seq::empty()
            }) + (if next.request_counter % 5 == 0 {
                seq![on_a_line(bitrate_command()), on_a_line(cache_command())]
            } else {
                Seq::empty()
            })
        }
    }

    /// The line that sets the volume, if there is a connection to write it to.
    pub open spec fn volume_line(self, volume: u32) -> Option<Seq<char>> {
        if self.writer {
            Some(on_a_line(volume_command(volume)))
        } else {
            None
        }
    }

    /// The line at `i` is still to be written: there is one, and a connection to
    /// write it to.
    pub open spec fn may_write(self, lines: Seq<Seq<char>>, i: int) -> bool {
        self.writer && 0 <= i < lines.len()
    }

    /// The state once a line has been written, or could not be.
    pub open spec fn after_write(self, written: bool) -> PlayerView {
        PlayerView { writer: self.writer && written, ..self }
    }

    /// What a read from the socket leads to. The bytes become text once the line
    /// is complete; a line that is no text ends the connection.
    pub open spec fn read(self, event: ReadEventView) -> (PlayerView, ReadStepView) {
        match event {
            ReadEventView::Data(bytes) => {
                let line = self.line_buf + bytes;
                match line_of(line) {
                    Some(text) if line.len() > 0 && line.last() == LINE_BREAK => (
                        PlayerView { line_buf: Seq::empty(), ..self },
                        ReadStepView::Line(text),
                    ),
                    _ => (PlayerView { line_buf: line, ..self }, ReadStepView::Closed),
                }
            },
            ReadEventView::Eof => (self, ReadStepView::Closed),
            ReadEventView::WouldBlock(bytes) => (
                PlayerView { line_buf: self.line_buf + bytes, ..self },
                ReadStepView::Idle,
            ),
            ReadEventView::Failed => (self, ReadStepView::Closed),
        }
    }

    /// The state once the lines of a poll have been taken in.
    pub open spec fn absorbed(self, lines: Seq<Seq<char>>, closed: bool) -> PlayerView {
        PlayerView {
            writer: self.writer && !closed,
            reader: self.reader && !closed,
            line_buf: if closed {
                Seq::empty()
            } else {
                self.line_buf
            },
            media_title: latest_title(lines, self.media_title),
            audio_level: if !self.capture && exists|i: int|
                0 <= i < lines.len() && tells_position(#[trigger] lines[i]) {
                70
            } else {
                self.audio_level
            },
            stream_info: info_after(self.stream_info, lines),
            ..self
        }
    }
}

/// The name of the socket file of the process `pid`.
pub open spec fn socket_name_of(pid: u32) -> Seq<char> {
    "aethertune-mpv-"@ + decimal(pid as nat)
}

/// The name of the pipe of the process `pid`.
pub open spec fn pipe_name_of(pid: u32) -> Seq<char> {
    "\\\\.\\pipe\\aethertune-mpv-"@ + decimal(pid as nat)
}

/// The name of the socket file of the process `pid`.
pub fn socket_file_name(pid: u32) -> (name: String)
    ensures
        name@ == socket_name_of(pid),
{
    let mut name = "aethertune-mpv-".to_owned();
    push_decimal(&mut name, pid as u64);
    name
}

/// The name of the pipe of the process `pid`.
pub fn pipe_name(pid: u32) -> (name: String)
    ensures
        name@ == pipe_name_of(pid),
{
    let mut name = "\\\\.\\pipe\\aethertune-mpv-".to_owned();
    push_decimal(&mut name, pid as u64);
    name
}

/// A line from the pipe, or none once nothing more is to be read from it.
pub fn pipe_line(read: &ReadEvent) -> (line: Option<String>)
    ensures
        match (read@, line) {
            (ReadEventView::Data(bytes), Some(line)) => line_of(bytes) == Some(line@),
            (ReadEventView::Data(bytes), None) => line_of(bytes) is None,
            (_, line) => line is None,
        },
{
    match read {
        ReadEvent::Data(bytes) => decode_line(bytes.as_slice()),
        _ => None,
    }
}

/// Whether `text` counts as an answer to the question for the playback position.
fn position_told(text: &str) -> (told: bool)
    ensures
        told == tells_position(text@),
{
    let line = to_chars(text);
    (contains_text(line.as_slice(), "\"request_id\":100") || contains_text(
        line.as_slice(),
        "\"request_id\": 100",
    )) && contains_text(line.as_slice(), "\"data\":") && !contains_text(line.as_slice(), "\"error\"")
}

impl Player {
    /// A player that is not playing anything.
    pub fn new(platform: Platform, ipc_server: String, has_capture_tool: bool) -> (player: Player)
        ensures
            player@ == (PlayerView {
                platform,
                ipc_server: ipc_server@,
                has_capture_tool,
                process: false,
                capture: false,
                connecting: false,
                writer: false,
                reader: false,
                line_buf: Seq::empty(),
                ipc_generation: 0,
                request_counter: 0,
                audio_level: 0,
                media_title: None,
                stream_info: StreamInfoView::unknown(),
                visualizer_enabled: true,
            }),
            player@.wf(),
    {
        Player {
            platform,
            ipc_server,
            has_capture_tool,
            process: false,
            capture: false,
            connecting: false,
            writer: false,
            reader: false,
            line_buf: Vec::new(),
            ipc_generation: 0,
            request_counter: 0,
            audio_level: 0,
            media_title: None,
            stream_info: StreamInfo::new(),
            visualizer_enabled: true,
        }
    }

    /// Whether audio is being captured.
    pub fn has_real_audio(&self) -> (yes: bool)
        ensures
            yes == self@.capture,
    {
        self.capture
    }

    /// Whether mpv has been started.
    pub fn is_playing(&self) -> (yes: bool)
        ensures
            yes == self@.process,
    {
        self.process
    }

    /// Whether there is a connection to read lines from.
    pub fn is_reading(&self) -> (yes: bool)
        ensures
            yes == self@.reader,
    {
        self.reader
    }

    fn capture_possible(&self) -> (yes: bool)
        ensures
            yes == self@.can_capture(),
    {
        match self.platform {
            Platform::Windows => true,
            _ => self.has_capture_tool,
        }
    }

    /// The end of the audio capture, appended to `actions`.
    fn stop_capture(&mut self, actions: &mut Vec<Action>)
        ensures
            final(self)@ == (PlayerView { capture: false, ..old(self)@ }),
            final(actions)@ == old(actions)@ + old(self)@.end_capture_actions(),
    {
        match self.platform {
            Platform::Linux => {
                if self.capture {
                    actions.push(Action::KillCapture);
                    actions.push(Action::RemoveFifo);
                    actions.push(Action::JoinCapture { limit_ms: 200 });
                }
            },
            _ => {
                actions.push(Action::SignalCapture);
                if self.capture {
                    actions.push(Action::JoinCapture { limit_ms: 300 });
                }
            },
        }
        actions.push(Action::ClearAnalysis);
        self.capture = false;
        assert(actions@ =~= old(actions)@ + old(self)@.end_capture_actions());
    }

    /// Stop playback. Whatever attempt to connect is still under way carries
    /// the old generation from here on.
    pub fn stop(&mut self) -> (actions: Vec<Action>)
        ensures
            final(self)@ == old(self)@.stopped(),
            actions@ == old(self)@.stop_actions(),
            final(self)@.wf(),
    {
        let mut actions: Vec<Action> = Vec::new();
        self.ipc_generation = self.ipc_generation.wrapping_add(1);
        self.writer = false;
        self.connecting = false;
        self.line_buf = Vec::new();
        actions.push(Action::Disconnect);
        self.stop_capture(&mut actions);
        if self.process {
            actions.push(Action::KillMpv);
            self.process = false;
        }
        match self.platform {
            Platform::Windows => {
                if self.reader {
                    actions.push(Action::JoinPipeReader { limit_ms: 300 });
                }
            },
            _ => {},
        }
        self.reader = false;
        actions.push(Action::RemoveSocket);
        self.audio_level = 0;
        self.media_title = None;
        self.stream_info.reset();
        assert(actions@ =~= old(self)@.stop_actions());
        actions
    }

    /// Stop what is playing and get ready for `url`: the actions that stop it,
    /// then the arguments to start mpv with. [`Player::finish_play`] takes the
    /// outcome.
    pub fn play_url(&mut self, url: &str, volume: u32) -> (launch: (Vec<Action>, Vec<String>))
        ensures
            final(self)@ == old(self)@.stopped(),
            launch.0@ == old(self)@.stop_actions(),
            texts(launch.1@) == mpv_arguments(old(self)@.ipc_server, url@, volume),
            final(self)@.wf(),
    {
        let actions = self.stop();
        let mut volume_arg = "--volume=".to_owned();
        push_decimal(&mut volume_arg, volume as u64);
        let mut server_arg = "--input-ipc-server=".to_owned();
        server_arg.append(self.ipc_server.as_str());
        let mut args: Vec<String> = Vec::new();
        args.push(url.to_owned());
        args.push("--no-video".to_owned());
        args.push(volume_arg);
        args.push(server_arg);
        assert(texts(args@) =~= mpv_arguments(old(self)@.ipc_server, url@, volume));
        (actions, args)
    }

    /// Take in whether mpv was started, and when. If it was, the actions that
    /// follow are to be carried out; if not, playback has failed.
    pub fn finish_play(&mut self, started_at: Option<Instant>) -> (outcome: (bool, Vec<Action>))
        ensures
            match started_at {
                Some(now) => {
                    &&& outcome.0
                    &&& final(self)@ == old(self)@.started(now)
                    &&& outcome.1@ == old(self)@.start_actions()
                },
                None => {
                    &&& !outcome.0
                    &&& final(self)@ == old(self)@
                    &&& outcome.1@ == Seq::<Action>::empty()
                },
            },
            old(self)@.wf() && !old(self)@.process ==> final(self)@.wf(),
    {
        let mut actions: Vec<Action> = Vec::new();
        match started_at {
            Some(now) => {
                match self.platform {
                    Platform::Windows => {
                        actions.push(Action::AssignJob);
                    },
                    _ => {},
                }
                self.process = true;
                self.media_title = None;
                self.stream_info.reset();
                self.stream_info.stream_connected_at = Some(now);
                self.connecting = true;
                actions.push(Action::Connect { generation: self.ipc_generation });
                if self.capture_possible() && self.visualizer_enabled {
                    actions.push(Action::StartCapture);
                }
                assert(actions@ =~= old(self)@.start_actions());
                (true, actions)
            },
            None => (false, actions),
        }
    }

    /// Take in how starting the capture went.
    pub fn capture_started(&mut self, outcome: CaptureOutcome) -> (action: Option<Action>)
        ensures
            final(self)@ == (PlayerView {
                capture: old(self)@.capture || outcome is Running,
                ..old(self)@
            }),
            action == (if outcome is Refused && old(self)@.platform is Linux {
                Some(Action::RemoveFifo)
            } else {
                None
            }),
            old(self)@.wf() && old(self)@.process ==> final(self)@.wf(),
    {
        match outcome {
            CaptureOutcome::Running => {
                self.capture = true;
                None
            },
            CaptureOutcome::Refused => match self.platform {
                Platform::Linux => Some(Action::RemoveFifo),
                _ => None,
            },
            CaptureOutcome::NoFifo => None,
        }
    }

    /// Stop audio capture if it's currently running (called when visualizer is
    /// disabled).
    pub fn stop_capture_if_running(&mut self) -> (actions: Vec<Action>)
        ensures
            final(self)@ == (PlayerView { capture: false, ..old(self)@ }),
            actions@ == (if old(self)@.capture {
                old(self)@.end_capture_actions()
            } else {
                Seq::empty()
            }),
            old(self)@.wf() ==> final(self)@.wf(),
    {
        let mut actions: Vec<Action> = Vec::new();
        if self.capture {
            self.stop_capture(&mut actions);
        }
        assert(actions@ =~= if old(self)@.capture {
            old(self)@.end_capture_actions()
        } else {
            Seq::empty()
        });
        actions
    }

    /// Restart audio capture (called when visualizer is re-enabled while
    /// playing).
    pub fn restart_capture(&self) -> (action: Option<Action>)
        ensures
            action == (if self@.may_restart_capture() {
                Some(Action::StartCapture)
            } else {
                None
            }),
    {
        if self.capture || !self.process {
            return None;
        }
        if self.capture_possible() {
            Some(Action::StartCapture)
        } else {
            None
        }
    }

    /// The line to write for `command`, if there is a connection.
    fn send_command(&self, command: &str) -> (line: Option<String>)
        ensures
            match line {
                Some(line) => self@.writer && line@ == on_a_line(command@),
                None => !self@.writer,
            },
    {
        if self.writer {
            let mut line = command.to_owned();
            line.push('\n');
            Some(line)
        } else {
            None
        }
    }

    /// Whether the line at `i` is still to be written. Nothing is, once a line
    /// before it could not be.
    pub fn may_write(&self, lines: &Vec<String>, i: usize) -> (yes: bool)
        ensures
            yes == self@.may_write(texts(lines@), i as int),
    {
        self.writer && i < lines.len()
    }

    /// Take in that a line could not be written. From here on there is no
    /// connection to write to.
    pub fn write_failed(&mut self)
        ensures
            final(self)@ == old(self)@.after_write(false),
            old(self)@.wf() ==> final(self)@.wf(),
    {
        self.writer = false;
    }

    /// The line that sets the volume, if there is a connection to write it to.
    pub fn set_volume(&self, volume: u32) -> (line: Option<String>)
        ensures
            match line {
                Some(line) => self@.volume_line(volume) == Some(line@),
                None => self@.volume_line(volume) is None,
            },
    {
        let mut command = "{ \"command\": [\"set_property\", \"volume\", ".to_owned();
        push_decimal(&mut command, volume as u64);
        command.append("] }");
        self.send_command(command.as_str())
    }

    /// Begin a poll, with what has become of the attempt to connect, if there
    /// is one. The lines that come back are to be written in order, each as long
    /// as [`Player::may_write`] allows it. A connection that was made for an earlier
    /// stream is not taken.
    pub fn poll(&mut self, status: ConnectStatus) -> (lines: Vec<String>)
        requires
            old(self)@.request_counter < u64::MAX,
        ensures
            final(self)@ == old(self)@.polled(status),
            texts(lines@) == old(self)@.poll_commands(status),
            old(self)@.wf() ==> final(self)@.wf(),
    {
        let mut lines: Vec<String> = Vec::new();
        self.request_counter = self.request_counter + 1;
        let mut connected = false;
        if self.connecting {
            match status {
                ConnectStatus::Ready { generation } => {
                    self.connecting = false;
                    if generation == self.ipc_generation {
                        self.writer = true;
                        self.reader = true;
                        connected = true;
                    }
                },
                ConnectStatus::Pending => {},
                ConnectStatus::Failed => {
                    self.connecting = false;
                },
            }
        }
        assert(self@ == old(self)@.polled(status));
        if connected {
            self.queue(
                &mut lines,
                "{ \"command\": [\"observe_property\", 1, \"media-title\"] }\n{ \"command\": [\"observe_property\", 2, \"audio-codec-name\"] }\n{ \"command\": [\"observe_property\", 3, \"audio-params/samplerate\"] }\n{ \"command\": [\"observe_property\", 4, \"audio-params/channel-count\"] }",
            );
        }
        if !self.capture && self.request_counter % 3 == 0 {
            self.queue(
                &mut lines,
                "{ \"command\": [\"get_property\", \"audio-pts\"], \"request_id\": 100 }",
            );
        }
        if self.request_counter % 5 == 0 {
            self.queue(
                &mut lines,
                "{ \"command\": [\"get_property\", \"audio-bitrate\"], \"request_id\": 200 }",
            );
            self.queue(
                &mut lines,
                "{ \"command\": [\"get_property\", \"demuxer-cache-duration\"], \"request_id\": 201 }",
            );
        }
        assert(texts(lines@) =~= old(self)@.poll_commands(status));
        lines
    }

    /// Appends `command` to the lines to be written, if there is a connection.
    fn queue(&self, lines: &mut Vec<String>, command: &str)
        ensures
            texts(final(lines)@) == (if self@.writer {
                texts(old(lines)@).push(on_a_line(command@))
            } else {
                texts(old(lines)@)
            }),
    {
        if let Some(line) = self.send_command(command) {
            lines.push(line);
            assert(texts(lines@) =~= texts(old(lines)@).push(on_a_line(command@)));
        }
    }

    /// Take in what a read from the socket gave. A line that has arrived only
    /// in part is kept, to the byte, until the rest of it comes.
    pub fn receive(&mut self, read: ReadEvent) -> (step: ReadStep)
        ensures
            (final(self)@, step@) == old(self)@.read(read@),
            old(self)@.wf() && old(self)@.reader ==> final(self)@.wf(),
    {
        match read {
            ReadEvent::Data(bytes) => {
                let mut bytes = bytes;
                self.line_buf.append(&mut bytes);
                let length: usize = self.line_buf.len();
                if length == 0 || self.line_buf[length - 1] != LINE_BREAK {
                    return ReadStep::Closed;
                }
                match decode_line(self.line_buf.as_slice()) {
                    Some(line) => {
                        self.line_buf = Vec::new();
                        ReadStep::Line(line)
                    },
                    None => ReadStep::Closed,
                }
            },
            ReadEvent::Eof => ReadStep::Closed,
            ReadEvent::WouldBlock(bytes) => {
                let mut bytes = bytes;
                self.line_buf.append(&mut bytes);
                ReadStep::Idle
            },
            ReadEvent::Failed => ReadStep::Closed,
        }
    }

    /// End a poll: take in the lines that were complete, and whether the
    /// connection has come to its end.
    pub fn absorb(&mut self, lines: &Vec<String>, closed: bool) -> (action: Option<Action>)
        ensures
            final(self)@ == old(self)@.absorbed(texts(lines@), closed),
            action == (if closed {
                Some(Action::Hangup)
            } else {
                None
            }),
            old(self)@.wf() && old(self)@.reader ==> final(self)@.wf(),
    {
        let mut new_title: Option<String> = None;
        let mut got_audio_pts = false;
        let ghost all = texts(lines@);
        let ghost before = self@;
        let mut i: usize = 0;
        while i < lines.len()
            invariant
                i <= lines@.len(),
                all == texts(lines@),
                latest_title(all.take(i as int), before.media_title) == (match new_title {
                    Some(title) => Some(title@),
                    None => before.media_title,
                }),
                got_audio_pts == exists|j: int| 0 <= j < i && tells_position(#[trigger] all[j]),
                self@ == (PlayerView {
                    stream_info: info_after(before.stream_info, all.take(i as int)),
                    ..before
                }),
            decreases lines.len() - i,
        {
            let text = lines[i].as_str();
            proof {
                assert(all[i as int] == text@);
                assert(all.take(i + 1).drop_last() == all.take(i as int));
                assert(all.take(i + 1).last() == text@);
            }
            if let Some(title) = extract_media_title(text) {
                if !title.as_str().is_empty() {
                    new_title = Some(title);
                }
            }
            if position_told(text) {
                got_audio_pts = true;
            }
            parse_stream_info(&mut self.stream_info, text);
            i += 1;
        }
        assert(all.take(all.len() as int) == all);
        if closed {
            self.writer = false;
            self.reader = false;
            self.line_buf = Vec::new();
        }
        if let Some(title) = new_title {
            self.media_title = Some(title);
        }
        if !self.capture && got_audio_pts {
            self.audio_level = 70;
        }
        proof {
            lemma_info_keeps_start(before.stream_info, all);
        }
        if closed {
            Some(Action::Hangup)
        } else {
            None
        }
    }
}

/// Lines from mpv do not change since when the stream has been connected.
pub proof fn lemma_info_keeps_start(info: StreamInfoView, lines: Seq<Seq<char>>)
    ensures
        info_after(info, lines).stream_connected_at == info.stream_connected_at,
    decreases lines.len(),
{
    if lines.len() > 0 {
        lemma_info_keeps_start(info, lines.drop_last());
    }
}

} // verus!
