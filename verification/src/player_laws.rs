//! What holds of the player over any course of events.
use crate::mpv_ipc::StreamInfoView;
use crate::player::{
    lemma_info_keeps_start, observe_commands, on_a_line, pipe_name_of, socket_name_of, Action, CaptureOutcome,
    ConnectStatus, PlayerView, ReadEventView,
};
use crate::numeral::law_decimal_is_unambiguous;
use crate::text::decimal;
use std::time::Instant;
use vstd::prelude::*;

verus! {

/// One thing that happens to a player: each stands for one of its methods, or
/// for switching the visualizer on or off.
pub enum Event {
    Stop,
    PlayUrl,
    FinishPlay(Option<Instant>),
    CaptureStarted(CaptureOutcome),
    StopCaptureIfRunning,
    WriteFailed,
    Poll(ConnectStatus),
    Receive(ReadEventView),
    Absorb(Seq<Seq<char>>, bool),
    SetVisualizer(bool),
}

/// The state after an event.
pub open spec fn step(s: PlayerView, event: Event) -> PlayerView {
    match event {
        Event::Stop => s.stopped(),
        Event::PlayUrl => s.stopped(),
        Event::FinishPlay(Some(now)) => s.started(now),
        Event::FinishPlay(None) => s,
        Event::CaptureStarted(outcome) => PlayerView {
            capture: s.capture || outcome is Running,
            ..s
        },
        Event::StopCaptureIfRunning => PlayerView { capture: false, ..s },
        Event::WriteFailed => s.after_write(false),
        Event::Poll(status) => s.polled(status),
        Event::Receive(event) => s.read(event).0,
        Event::Absorb(lines, closed) => s.absorbed(lines, closed),
        Event::SetVisualizer(on) => PlayerView { visualizer_enabled: on, ..s },
    }
}

/// The state after a course of events.
pub open spec fn run(s: PlayerView, events: Seq<Event>) -> PlayerView
    decreases events.len(),
{
    if events.len() == 0 {
        s
    } else {
        step(run(s, events.drop_last()), events.last())
    }
}

/// The event can happen in this state: mpv is started only after a stop, audio
/// is captured only while it runs, and lines come only over a connection.
pub open spec fn possible(s: PlayerView, event: Event) -> bool {
    match event {
        Event::FinishPlay(_) => !s.process,
        Event::CaptureStarted(_) => s.process,
        Event::Receive(_) => s.reader,
        Event::Absorb(_, _) => s.reader,
        _ => true,
    }
}

/// Each event of the course can happen where it does.
pub open spec fn course_possible(s: PlayerView, events: Seq<Event>) -> bool
    decreases events.len(),
{
    events.len() == 0 || {
        &&& course_possible(s, events.drop_last())
        &&& possible(run(s, events.drop_last()), events.last())
    }
}

/// How often playback was stopped.
pub open spec fn stops(events: Seq<Event>) -> nat
    decreases events.len(),
{
    if events.len() == 0 {
        0
    } else {
        stops(events.drop_last()) + (if events.last() is Stop || events.last() is PlayUrl {
            1nat
        } else {
            0
        })
    }
}

/// No course of events brings a player into an inconsistent state.
pub proof fn law_state_stays_consistent(s: PlayerView, events: Seq<Event>)
    requires
        s.wf(),
        course_possible(s, events),
    ensures
        run(s, events).wf(),
    decreases events.len(),
{
    if events.len() > 0 {
        law_state_stays_consistent(s, events.drop_last());
        let before = run(s, events.drop_last());
        if let Event::Absorb(lines, closed) = events.last() {
            lemma_info_keeps_start(before.stream_info, lines);
        }
    }
}

/// The generation counts the stops, and starts over at 2^64.
pub proof fn law_generation_counts_stops(s: PlayerView, events: Seq<Event>)
    ensures
        run(s, events).ipc_generation == (s.ipc_generation + stops(events)) % 0x1_0000_0000_0000_0000,
    decreases events.len(),
{
    if events.len() > 0 {
        law_generation_counts_stops(s, events.drop_last());
    }
}

/// Each stop moves on to another generation. The connection that was attempted
/// before it is not taken, neither while nothing plays nor for the stream that
/// is started next.
pub proof fn law_stop_outdates_the_attempt(s: PlayerView, now: Instant)
    ensures
        ({
            let late = ConnectStatus::Ready { generation: s.ipc_generation };
            let stopped = s.stopped();
            let next = stopped.started(now);
            &&& stopped.ipc_generation == (s.ipc_generation + 1) % 0x1_0000_0000_0000_0000
            &&& stopped.ipc_generation != s.ipc_generation
            &&& !stopped.polled(late).writer && !stopped.polled(late).reader
            &&& !next.polled(late).writer && !next.polled(late).reader
            &&& next.start_actions().contains(Action::Connect { generation: stopped.ipc_generation })
        }),
{
    let stopped = s.stopped();
    let actions = stopped.started(now).start_actions();
    let connect = Action::Connect { generation: stopped.ipc_generation };
    assert(actions[if s.platform is Windows {
        1
    } else {
        0
    }] == connect);
}

/// A connection that was attempted before a stop is never taken after it,
/// whatever else has happened in between, as long as the generations have not
/// gone all the way round.
pub proof fn law_late_connection_is_discarded(s: PlayerView, events: Seq<Event>)
    requires
        0 < stops(events) < 0x1_0000_0000_0000_0000,
    ensures
        ({
            let late = ConnectStatus::Ready { generation: s.ipc_generation };
            let now = run(s, events);
            &&& !now.connects(late)
            &&& now.polled(late).writer == now.writer
            &&& now.polled(late).reader == now.reader
        }),
{
    law_generation_counts_stops(s, events);
}

/// As long as playback has not been stopped, the connection that is attempted
/// is taken once it is there, and mpv is first asked to report changes.
pub proof fn law_current_connection_is_taken(s: PlayerView, events: Seq<Event>)
    requires
        stops(events) == 0,
        run(s, events).connecting,
    ensures
        ({
            let ready = ConnectStatus::Ready { generation: s.ipc_generation };
            let now = run(s, events);
            &&& now.polled(ready).writer
            &&& now.polled(ready).reader
            &&& !now.polled(ready).connecting
            &&& now.poll_commands(ready)[0] == on_a_line(observe_commands())
        }),
{
    law_generation_counts_stops(s, events);
}

/// A stream starts with nothing known of it but the time, whatever was known
/// of the one before.
pub proof fn law_a_new_stream_starts_afresh(s: PlayerView, now: Instant)
    ensures
        ({
            let t = s.stopped().started(now);
            &&& t.wf()
            &&& t.process && t.connecting
            &&& t.media_title is None
            &&& t.stream_info == (StreamInfoView {
                stream_connected_at: Some(now),
                ..StreamInfoView::unknown()
            })
            &&& t.ipc_generation != s.ipc_generation
        }),
{
}

/// A stop leaves nothing of the stream behind, and a second one finds nothing
/// to end.
pub proof fn law_stop_leaves_nothing(s: PlayerView)
    ensures
        ({
            let t = s.stopped();
            &&& t.wf()
            &&& !t.process && !t.capture && !t.connecting && !t.writer && !t.reader
            &&& t.line_buf.len() == 0 && t.media_title is None && t.audio_level == 0
            &&& t.stream_info == StreamInfoView::unknown()
            &&& t.stopped() == PlayerView { ipc_generation: t.stopped().ipc_generation, ..t }
            &&& forall|i: int| 0 <= i < t.stop_actions().len() ==> {
                let action = #[trigger] t.stop_actions()[i];
                !(action is KillMpv || action is KillCapture || action is JoinCapture
                    || action is JoinPipeReader)
            }
        }),
{
    let t = s.stopped();
    assert(t.stop_actions() =~= if t.platform is Linux {
        seq![Action::Disconnect, Action::ClearAnalysis, Action::RemoveSocket]
    } else {
        seq![Action::Disconnect, Action::SignalCapture, Action::ClearAnalysis, Action::RemoveSocket]
    });
}

/// A stop ends whatever was started: mpv if it runs, and the capture if audio
/// is captured.
pub proof fn law_stop_ends_what_runs(s: PlayerView)
    ensures
        s.process ==> s.stop_actions().contains(Action::KillMpv),
        s.capture && s.platform is Linux ==> s.stop_actions().contains(Action::KillCapture),
        s.capture && !(s.platform is Linux) ==> s.stop_actions().contains(Action::SignalCapture),
{
    let a = s.stop_actions();
    let c = s.end_capture_actions();
    assert(a[1] == c[0]);
    assert(a.contains(c[0]));
    if s.process {
        assert(a[c.len() as int + 1] == Action::KillMpv);
    }
}

/// On Windows mpv is ended before the thread that reads its pipe is waited
/// for: that thread comes back only once mpv is gone.
pub proof fn law_mpv_is_ended_before_the_wait(s: PlayerView, i: int, ms: u64)
    requires
        s.wf(),
        0 <= i < s.stop_actions().len(),
        s.stop_actions()[i] == (Action::JoinPipeReader { limit_ms: ms }),
    ensures
        exists|j: int| 0 <= j < i && s.stop_actions()[j] == Action::KillMpv,
{
    let c = s.end_capture_actions();
    let a = s.stop_actions();
    assert(s.process ==> a[c.len() as int + 1] == Action::KillMpv);
    assert(i != 0);
    if i <= c.len() {
        assert(a[i] == c[i - 1]);
    }
}

/// Capture is never started while audio is captured already, and only with
/// mpv running.
pub proof fn law_capture_starts_once(s: PlayerView, now: Instant)
    requires
        s.wf(),
    ensures
        s.may_restart_capture() ==> s.process && !s.capture,
        !s.process && s.start_actions().contains(Action::StartCapture) ==> {
            &&& s.started(now).process
            &&& !s.started(now).capture
            &&& s.visualizer_enabled
        },
{
}

/// Without a connection nothing is written: not by a poll, and not to set the
/// volume.
pub proof fn law_nothing_is_sent_unconnected(s: PlayerView, status: ConnectStatus, volume: u32)
    requires
        !s.writer,
        !s.connects(status),
    ensures
        s.poll_commands(status) == Seq::<Seq<char>>::empty(),
        s.volume_line(volume) is None,
{
}

/// The lines, from the one at `i` on, that are handed to the connection, where
/// `outcomes` says of each line whether it can be written.
pub open spec fn lines_tried(s: PlayerView, lines: Seq<Seq<char>>, outcomes: Seq<bool>, i: int) -> Seq<Seq<char>>
    decreases lines.len() - i,
{
    if s.may_write(lines, i) {
        seq![lines[i]] + lines_tried(s.after_write(outcomes[i]), lines, outcomes, i + 1)
    } else {
        Seq::empty()
    }
}

/// The state once they have been.
pub open spec fn after_lines(s: PlayerView, lines: Seq<Seq<char>>, outcomes: Seq<bool>, i: int) -> PlayerView
    decreases lines.len() - i,
{
    if s.may_write(lines, i) {
        after_lines(s.after_write(outcomes[i]), lines, outcomes, i + 1)
    } else {
        s
    }
}

proof fn lemma_lines_tried(s: PlayerView, lines: Seq<Seq<char>>, outcomes: Seq<bool>, i: int, end: int)
    requires
        s.writer,
        0 <= i <= end <= lines.len(),
        forall|j: int| i <= j < end ==> #[trigger] outcomes[j],
        end < lines.len() ==> !outcomes[end],
    ensures
        lines_tried(s, lines, outcomes, i) == lines.subrange(i, if end < lines.len() {
            end + 1
        } else {
            end
        }),
        after_lines(s, lines, outcomes, i) == s.after_write(end == lines.len()),
    decreases end - i,
{
    reveal_with_fuel(lines_tried, 2);
    reveal_with_fuel(after_lines, 2);
    if i < end {
        assert(outcomes[i]);
        assert(s.after_write(true) == s);
        lemma_lines_tried(s, lines, outcomes, i + 1, end);
    }
}

/// The commands of a poll are written in order, up to and with the first that
/// cannot be. After that nothing more is written: nothing of this poll, no
/// volume, and nothing of a later poll either, until there is a new connection.
/// Lines can still be read.
pub proof fn law_a_failed_write_is_the_last(
    s: PlayerView,
    status: ConnectStatus,
    outcomes: Seq<bool>,
    failed: int,
    later: ConnectStatus,
    volume: u32,
)
    requires
        0 <= failed < s.poll_commands(status).len(),
        forall|i: int| 0 <= i < failed ==> #[trigger] outcomes[i],
        !outcomes[failed],
    ensures
        ({
            let commands = s.poll_commands(status);
            let t = after_lines(s.polled(status), commands, outcomes, 0);
            &&& lines_tried(s.polled(status), commands, outcomes, 0) == commands.take(failed + 1)
            &&& t == s.polled(status).after_write(false)
            &&& forall|i: int| !t.may_write(commands, i)
            &&& t.volume_line(volume) is None
            &&& !t.connects(later) ==> t.poll_commands(later) == Seq::<Seq<char>>::empty()
            &&& t.reader == s.polled(status).reader
        }),
{
    lemma_lines_tried(s.polled(status), s.poll_commands(status), outcomes, 0, failed);
}

/// As long as each can be written, all commands of a poll are, and the
/// connection stays.
pub proof fn law_all_commands_are_written(s: PlayerView, status: ConnectStatus, outcomes: Seq<bool>)
    requires
        forall|i: int| 0 <= i < s.poll_commands(status).len() ==> #[trigger] outcomes[i],
    ensures
        lines_tried(s.polled(status), s.poll_commands(status), outcomes, 0) == s.poll_commands(status),
        after_lines(s.polled(status), s.poll_commands(status), outcomes, 0) == s.polled(status),
{
    let commands = s.poll_commands(status);
    if s.polled(status).writer {
        lemma_lines_tried(s.polled(status), commands, outcomes, 0, commands.len() as int);
        assert(commands.subrange(0, commands.len() as int) == commands);
    }
}

/// No two processes listen under the same name.
pub proof fn law_each_process_has_its_own_name(a: u32, b: u32)
    requires
        a != b,
    ensures
        socket_name_of(a) != socket_name_of(b),
        pipe_name_of(a) != pipe_name_of(b),
{
    let socket = "aethertune-mpv-"@.len() as int;
    if socket_name_of(a) == socket_name_of(b) {
        assert(socket_name_of(a).skip(socket) == decimal(a as nat));
        assert(socket_name_of(b).skip(socket) == decimal(b as nat));
        law_decimal_is_unambiguous(a as nat, b as nat);
    }
    let pipe = "\\\\.\\pipe\\aethertune-mpv-"@.len() as int;
    if pipe_name_of(a) == pipe_name_of(b) {
        assert(pipe_name_of(a).skip(pipe) == decimal(a as nat));
        assert(pipe_name_of(b).skip(pipe) == decimal(b as nat));
        law_decimal_is_unambiguous(a as nat, b as nat);
    }
}

} // verus!
