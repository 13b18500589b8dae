//! What each call of the player comes to.
use crate::mpv_ipc::{media_title, parse_stream_info, StreamInfo, StreamInfoView};
use crate::numeral::{digits_value, law_decimal_has_its_value};
use crate::player::{
    info_after, latest_title, pipe_line, pipe_name, socket_file_name, tells_position, texts, Action, CaptureOutcome,
    ConnectStatus, Platform, Player, PlayerView, ReadEvent, ReadStep,
};
use crate::stream_laws::lemma_lines_in_order;
use crate::text::{contains, decimal, is_white_space, law_the_end_is_trimmed};
use std::time::Instant;
use vstd::prelude::*;
use vstd::string::*;
use vstd::utf8::{
    decode_utf8, decode_utf8_encode_utf8, encode_utf8, encode_utf8_decode_utf8, encode_utf8_valid_utf8, valid_utf8,
};

verus! {

/// The contents of a player are all that it holds.
pub proof fn law_the_view_leaves_nothing_out(a: Player, b: Player)
    requires
        a@ == b@,
    ensures
        a.platform == b.platform,
        a.ipc_server@ == b.ipc_server@,
        a.has_capture_tool == b.has_capture_tool,
        a.process == b.process,
        a.capture == b.capture,
        a.connecting == b.connecting,
        a.writer == b.writer,
        a.reader == b.reader,
        a.line_buf@ == b.line_buf@,
        a.ipc_generation == b.ipc_generation,
        a.request_counter == b.request_counter,
        a.audio_level == b.audio_level,
        a.media_title is Some <==> b.media_title is Some,
        a.media_title matches Some(t) ==> b.media_title matches Some(u) && t@ == u@,
        a.stream_info.audio_bitrate@ == b.stream_info.audio_bitrate@,
        a.stream_info.audio_codec@ == b.stream_info.audio_codec@,
        a.stream_info.cache_duration@ == b.stream_info.cache_duration@,
        a.stream_info.stream_connected_at == b.stream_info.stream_connected_at,
        a.stream_info.sample_rate == b.stream_info.sample_rate,
        a.stream_info.channels == b.stream_info.channels,
        a.visualizer_enabled == b.visualizer_enabled,
{
    assert(a@.platform == a.platform && b@.platform == b.platform);
    assert(a@.stream_info == b@.stream_info);
}

/// The names that a process goes by end with its number.
pub proof fn law_names_end_with_the_process_number(pid: u32, socket: String, pipe: String)
    requires
        call_ensures(socket_file_name, (pid,), socket),
        call_ensures(pipe_name, (pid,), pipe),
    ensures
        socket@ == "aethertune-mpv-"@ + decimal(pid as nat),
        pipe@ == "\\\\.\\pipe\\aethertune-mpv-"@ + decimal(pid as nat),
{
}

/// A new player plays nothing, is connected to nothing and knows of nothing;
/// the visualizer is on.
pub proof fn law_a_new_player_is_idle(platform: Platform, ipc_server: String, has_capture_tool: bool, player: Player)
    requires
        call_ensures(Player::new, (platform, ipc_server, has_capture_tool), player),
    ensures
        player.platform == platform,
        player.ipc_server@ == ipc_server@,
        player.has_capture_tool == has_capture_tool,
        !player.process && !player.capture && !player.connecting && !player.writer && !player.reader,
        player.line_buf@.len() == 0,
        player.ipc_generation == 0,
        player.request_counter == 0,
        player.audio_level == 0,
        player.media_title is None,
        player.stream_info.audio_codec@.len() == 0,
        player.stream_info.stream_connected_at is None,
        player.stream_info.sample_rate == 0,
        player.stream_info.channels == 0,
        player.stream_info.audio_bitrate@ == "0"@,
        player.stream_info.cache_duration@ == "0"@,
        player.visualizer_enabled,
{
    assert(player@.stream_info == StreamInfoView::unknown());
    assert(player@.media_title is None);
}

/// What a player says of itself is so.
pub proof fn law_what_a_player_says_of_itself(player: &Player, audio: bool, playing: bool, reading: bool)
    requires
        call_ensures(Player::has_real_audio, (player,), audio),
        call_ensures(Player::is_playing, (player,), playing),
        call_ensures(Player::is_reading, (player,), reading),
    ensures
        audio <==> player.capture,
        playing <==> player.process,
        reading <==> player.reader,
{
}

/// How the audio capture is ended on each system.
pub open spec fn ends_capture(platform: Platform, capture: bool, actions: Seq<Action>) -> bool {
    &&& platform is Linux && capture ==> actions == seq![
        Action::KillCapture,
        Action::RemoveFifo,
        Action::JoinCapture { limit_ms: 200 },
        Action::ClearAnalysis,
    ]
    &&& platform is Linux && !capture ==> actions == seq![Action::ClearAnalysis]
    &&& !(platform is Linux) && capture ==> actions == seq![
        Action::SignalCapture,
        Action::JoinCapture { limit_ms: 300 },
        Action::ClearAnalysis,
    ]
    &&& !(platform is Linux) && !capture ==> actions == seq![Action::SignalCapture, Action::ClearAnalysis]
}

/// `actions` stop what this player runs, in order: the connection for writing
/// goes first, then the capture, then mpv if it runs, then on Windows the thread
/// that reads its pipe, and last the socket file.
pub open spec fn stops_all(player: Player, actions: Seq<Action>) -> bool {
    exists|capture: Seq<Action>| #[trigger]
        ends_capture(player.platform, player.capture, capture) && actions == seq![Action::Disconnect] + capture + (
        if player.process {
            seq![Action::KillMpv]
        } else {
            Seq::empty()
        }) + (if player.platform is Windows && player.reader {
            seq![Action::JoinPipeReader { limit_ms: 300 }]
        } else {
            Seq::empty()
        }) + seq![Action::RemoveSocket]
}

/// `after` plays nothing and has forgotten the stream; it has moved on to the
/// next generation, and what was set up for the program is as `before`.
pub open spec fn is_stopped(before: Player, after: Player) -> bool {
    &&& !after.process && !after.capture && !after.connecting && !after.writer && !after.reader
    &&& after.line_buf@.len() == 0
    &&& after.ipc_generation == (before.ipc_generation + 1) % 0x1_0000_0000_0000_0000
    &&& after.audio_level == 0
    &&& after.media_title is None
    &&& after.stream_info.audio_bitrate@ == "0"@
    &&& after.stream_info.audio_codec@.len() == 0
    &&& after.stream_info.cache_duration@ == "0"@
    &&& after.stream_info.stream_connected_at is None
    &&& after.stream_info.sample_rate == 0
    &&& after.stream_info.channels == 0
    &&& after.platform == before.platform
    &&& after.ipc_server@ == before.ipc_server@
    &&& after.has_capture_tool == before.has_capture_tool
    &&& after.request_counter == before.request_counter
    &&& after.visualizer_enabled == before.visualizer_enabled
}

proof fn lemma_stopped(before: Player, after: Player, actions: Seq<Action>)
    requires
        after@ == before@.stopped(),
        actions == before@.stop_actions(),
    ensures
        is_stopped(before, after),
        stops_all(before, actions),
{
    assert(after@.stream_info == StreamInfoView::unknown());
    assert(after@.media_title is None);
    assert(after@.platform == before@.platform && after@.ipc_server == before@.ipc_server);
    assert(ends_capture(before.platform, before.capture, before@.end_capture_actions()));
}

/// Stopping ends all that runs, in order, and leaves nothing of the stream
/// behind.
pub proof fn law_stopping_ends_everything(player: &mut Player, actions: Vec<Action>)
    requires
        call_ensures(Player::stop, (player,), actions),
    ensures
        is_stopped(*old(player), *final(player)),
        stops_all(*old(player), actions@),
{
    lemma_stopped(*old(player), *final(player), actions@);
}

/// Before a station is played, what plays is stopped. mpv is then started on the
/// URL that was asked for, without video, at the volume that was asked for, and
/// listens where the player will connect.
pub proof fn law_mpv_is_started_as_asked(
    player: &mut Player,
    url: &str,
    volume: u32,
    launch: (Vec<Action>, Vec<String>),
)
    requires
        call_ensures(Player::play_url, (player, url, volume), launch),
    ensures
        is_stopped(*old(player), *final(player)),
        stops_all(*old(player), launch.0@),
        launch.1@.len() == 4,
        launch.1@[0]@ == url@,
        launch.1@[1]@ == "--no-video"@,
        launch.1@[3]@ == "--input-ipc-server="@ + old(player).ipc_server@,
        ({
            let arg = launch.1@[2]@;
            let digits = arg.skip("--volume="@.len() as int);
            &&& arg == "--volume="@ + digits
            &&& forall|i: int| 0 <= i < digits.len() ==> '0' <= #[trigger] digits[i] <= '9'
            &&& digits.len() > 0
            &&& digits_value(digits) == volume
            &&& digits[0] == '0' ==> volume == 0
        }),
{
    lemma_stopped(*old(player), *final(player), launch.0@);
    let args = texts(launch.1@);
    assert(args.len() == launch.1@.len());
    assert(args[0] == launch.1@[0]@ && args[1] == launch.1@[1]@);
    assert(args[2] == launch.1@[2]@ && args[3] == launch.1@[3]@);
    let digits = args[2].skip("--volume="@.len() as int);
    assert(digits =~= decimal(volume as nat));
    law_decimal_has_its_value(volume as nat);
}

/// Two stations, or two volumes, are never started alike.
pub proof fn law_different_wishes_start_mpv_differently(
    a: &mut Player,
    url_a: &str,
    volume_a: u32,
    launch_a: (Vec<Action>, Vec<String>),
    b: &mut Player,
    url_b: &str,
    volume_b: u32,
    launch_b: (Vec<Action>, Vec<String>),
)
    requires
        call_ensures(Player::play_url, (a, url_a, volume_a), launch_a),
        call_ensures(Player::play_url, (b, url_b, volume_b), launch_b),
        url_a@ != url_b@ || volume_a != volume_b,
    ensures
        launch_a.1@[0]@ != launch_b.1@[0]@ || launch_a.1@[2]@ != launch_b.1@[2]@,
{
    law_mpv_is_started_as_asked(a, url_a, volume_a, launch_a);
    law_mpv_is_started_as_asked(b, url_b, volume_b, launch_b);
}

/// Once mpv has been started, the stream is new: nothing is known of it but
/// since when it has been connected. A connection to mpv is attempted, for this
/// generation; on Windows mpv is first tied to this program; and audio is
/// captured if it can be and the visualizer is on.
pub proof fn law_a_started_stream_is_new(player: &mut Player, now: Instant, outcome: (bool, Vec<Action>))
    requires
        call_ensures(Player::finish_play, (player, Some(now)), outcome),
    ensures
        outcome.0,
        final(player).process && final(player).connecting,
        final(player).media_title is None,
        final(player).stream_info.stream_connected_at == Some(now),
        final(player).stream_info.audio_bitrate@ == "0"@,
        final(player).stream_info.audio_codec@.len() == 0,
        final(player).stream_info.cache_duration@ == "0"@,
        final(player).stream_info.sample_rate == 0,
        final(player).stream_info.channels == 0,
        final(player)@ == (PlayerView {
            process: true,
            connecting: true,
            media_title: None,
            stream_info: final(player)@.stream_info,
            ..old(player)@
        }),
        ({
            let connect = Action::Connect { generation: old(player).ipc_generation };
            let captures = old(player).visualizer_enabled && (old(player).platform is Windows || old(player).has_capture_tool);
            outcome.1@ == (if old(player).platform is Windows {
                seq![Action::AssignJob, connect]
            } else {
                seq![connect]
            }) + (if captures {
                seq![Action::StartCapture]
            } else {
                Seq::empty()
            })
        }),
{
    assert(final(player)@.stream_info.stream_connected_at == Some(now));
    assert(final(player)@.media_title is None);
}

/// If mpv could not be started, playback has failed and nothing else has
/// happened.
pub proof fn law_a_failed_start_changes_nothing(player: &mut Player, outcome: (bool, Vec<Action>))
    requires
        call_ensures(Player::finish_play, (player, None::<Instant>), outcome),
    ensures
        !outcome.0,
        outcome.1@.len() == 0,
        final(player)@ == old(player)@,
{
}

/// Audio is captured once the capture runs. One that did not start leaves a FIFO
/// to remove, on Linux.
pub proof fn law_how_the_capture_started(player: &mut Player, outcome: CaptureOutcome, action: Option<Action>)
    requires
        call_ensures(Player::capture_started, (player, outcome), action),
    ensures
        outcome is Running ==> final(player).capture && action is None,
        !(outcome is Running) ==> final(player).capture == old(player).capture,
        outcome is NoFifo ==> action is None,
        outcome is Refused ==> action == (if old(player).platform is Linux {
            Some(Action::RemoveFifo)
        } else {
            None
        }),
        final(player)@ == (PlayerView { capture: final(player).capture, ..old(player)@ }),
{
    assert(final(player)@.capture == final(player).capture);
}

/// Stopping the capture ends it if it runs, does nothing if it does not, and
/// touches nothing else; afterwards no audio is captured.
pub proof fn law_stopping_the_capture(player: &mut Player, actions: Vec<Action>)
    requires
        call_ensures(Player::stop_capture_if_running, (player,), actions),
    ensures
        final(player)@ == (PlayerView { capture: false, ..old(player)@ }),
        old(player).capture ==> ends_capture(old(player).platform, true, actions@),
        !old(player).capture ==> actions@.len() == 0,
{
}

/// The capture is started again exactly if something plays, no audio is captured
/// and it can be: on Windows always, elsewhere with the tool for it.
pub proof fn law_when_the_capture_is_started_again(player: &Player, action: Option<Action>)
    requires
        call_ensures(Player::restart_capture, (player,), action),
    ensures
        action == (if player.process && !player.capture && (player.platform is Windows || player.has_capture_tool) {
            Some(Action::StartCapture)
        } else {
            None
        }),
{
}

/// A line may be written as long as there is one and a connection to write it
/// to; a write that failed takes the connection away, and only that.
pub proof fn law_when_a_line_may_be_written(player: &mut Player, lines: &Vec<String>, i: usize, yes: bool)
    requires
        call_ensures(Player::may_write, (&*player, lines, i), yes),
        call_ensures(Player::write_failed, (player,), ()),
    ensures
        yes <==> i < lines@.len() && old(player).writer,
        final(player)@ == (PlayerView { writer: false, ..old(player)@ }),
{
    assert(texts(lines@).len() == lines@.len());
}

/// The volume is set by a command on a line of its own that names the property
/// and the volume, and only over a connection.
pub proof fn law_the_volume_is_set_as_asked(player: &Player, volume: u32, line: Option<String>)
    requires
        call_ensures(Player::set_volume, (player, volume), line),
    ensures
        line is Some <==> player.writer,
        line matches Some(line) ==> {
            let start = "{ \"command\": [\"set_property\", \"volume\", "@;
            let digits = line@.subrange(start.len() as int, line@.len() - "] }\n"@.len());
            &&& line@ == start + digits + "] }\n"@
            &&& forall|i: int| 0 <= i < digits.len() ==> '0' <= #[trigger] digits[i] <= '9'
            &&& digits.len() > 0
            &&& digits_value(digits) == volume
        },
{
    if let Some(line) = line {
        let start = "{ \"command\": [\"set_property\", \"volume\", "@;
        reveal_strlit("] }");
        reveal_strlit("] }\n");
        law_decimal_has_its_value(volume as nat);
        assert("] }"@.push('\n') =~= "] }\n"@);
        assert(line@ =~= start + decimal(volume as nat) + "] }\n"@);
        assert(line@.subrange(start.len() as int, line@.len() - "] }\n"@.len()) =~= decimal(volume as nat));
    }
}

/// A poll takes the connection that was attempted for the current generation,
/// and no other; it goes on waiting only while the attempt is under way. Nothing
/// else changes but the count.
pub proof fn law_which_connection_a_poll_takes(player: &mut Player, status: ConnectStatus, lines: Vec<String>)
    requires
        old(player).request_counter < u64::MAX,
        call_ensures(Player::poll, (player, status), lines),
    ensures
        final(player).request_counter == old(player).request_counter + 1,
        final(player).connecting <==> old(player).connecting && status is Pending,
        ({
            let taken = old(player).connecting && status == (ConnectStatus::Ready {
                generation: old(player).ipc_generation,
            });
            &&& taken ==> final(player).writer && final(player).reader
            &&& !taken ==> final(player).writer == old(player).writer && final(player).reader == old(player).reader
        }),
        final(player)@ == (PlayerView {
            request_counter: final(player).request_counter,
            connecting: final(player).connecting,
            writer: final(player).writer,
            reader: final(player).reader,
            ..old(player)@
        }),
{
    assert(final(player)@.request_counter == final(player).request_counter);
    assert(final(player)@.connecting == final(player).connecting);
    assert(final(player)@.writer == final(player).writer && final(player)@.reader == final(player).reader);
}

/// What a poll asks mpv. Without a connection, nothing. Over a connection that
/// has just come up, first to report title, codec, sample rate and channels. At
/// every third poll the position, unless audio is captured; at every fifth the
/// bitrate and how much is buffered.
pub proof fn law_what_a_poll_asks(player: &mut Player, status: ConnectStatus, lines: Vec<String>)
    requires
        old(player).request_counter < u64::MAX,
        call_ensures(Player::poll, (player, status), lines),
    ensures
        !final(player).writer ==> lines@.len() == 0,
        final(player).writer ==> {
            let n = old(player).request_counter + 1;
            let new = old(player).connecting && status == (ConnectStatus::Ready {
                generation: old(player).ipc_generation,
            });
            texts(lines@) == (if new {
                seq![
                    "{ \"command\": [\"observe_property\", 1, \"media-title\"] }\n{ \"command\": [\"observe_property\", 2, \"audio-codec-name\"] }\n{ \"command\": [\"observe_property\", 3, \"audio-params/samplerate\"] }\n{ \"command\": [\"observe_property\", 4, \"audio-params/channel-count\"] }"@.push('\n'),
                ]
            } else {
                Seq::empty()
            }) + (if n % 3 == 0 && !old(player).capture {
                seq!["{ \"command\": [\"get_property\", \"audio-pts\"], \"request_id\": 100 }"@.push('\n')]
            } else {
                Seq::empty()
            }) + (if n % 5 == 0 {
                seq![
                    "{ \"command\": [\"get_property\", \"audio-bitrate\"], \"request_id\": 200 }"@.push('\n'),
                    "{ \"command\": [\"get_property\", \"demuxer-cache-duration\"], \"request_id\": 201 }"@.push('\n'),
                ]
            } else {
                Seq::empty()
            })
        },
{
    assert(texts(lines@).len() == lines@.len());
    assert(final(player)@.writer == final(player).writer);
}

/// Whenever the count of polls comes to a multiple of five, the bitrate and the
/// cache are asked for, whatever else is; and whenever it comes to a multiple of
/// three without audio captured, the position is.
pub proof fn law_properties_are_asked_for_again_and_again(s: PlayerView, status: ConnectStatus)
    requires
        s.request_counter < u64::MAX,
        s.writer || s.connecting && status == (ConnectStatus::Ready { generation: s.ipc_generation }),
    ensures
        (s.request_counter + 1) % 5 == 0 ==> {
            &&& s.poll_commands(status).contains(
                "{ \"command\": [\"get_property\", \"audio-bitrate\"], \"request_id\": 200 }"@.push('\n'),
            )
            &&& s.poll_commands(status).contains(
                "{ \"command\": [\"get_property\", \"demuxer-cache-duration\"], \"request_id\": 201 }"@.push('\n'),
            )
        },
        (s.request_counter + 1) % 3 == 0 && !s.capture ==> s.poll_commands(status).contains(
            "{ \"command\": [\"get_property\", \"audio-pts\"], \"request_id\": 100 }"@.push('\n'),
        ),
{
    let commands = s.poll_commands(status);
    let n = commands.len() as int;
    if (s.request_counter + 1) % 5 == 0 {
        assert(commands[n - 2] == "{ \"command\": [\"get_property\", \"audio-bitrate\"], \"request_id\": 200 }"@.push('\n'));
        assert(commands[n - 1]
            == "{ \"command\": [\"get_property\", \"demuxer-cache-duration\"], \"request_id\": 201 }"@.push('\n'));
    }
    if (s.request_counter + 1) % 3 == 0 && !s.capture {
        let at = if s.connects(status) {
            1int
        } else {
            0
        };
        assert(commands[at] == "{ \"command\": [\"get_property\", \"audio-pts\"], \"request_id\": 100 }"@.push('\n'));
    }
}

/// The state after `n` polls.
pub open spec fn polled_times(s: PlayerView, n: nat) -> PlayerView
    decreases n,
{
    if n == 0 {
        s
    } else {
        polled_times(s, (n - 1) as nat).polled(ConnectStatus::Pending)
    }
}

proof fn lemma_polled_times(s: PlayerView, n: nat)
    requires
        s.request_counter + n <= u64::MAX,
    ensures
        polled_times(s, n) == (PlayerView { request_counter: (s.request_counter + n) as u64, ..s }),
    decreases n,
{
    if n > 0 {
        lemma_polled_times(s, (n - 1) as nat);
    }
}

/// Of any five polls of a connection in a row, one asks for the bitrate and the
/// cache.
pub proof fn law_one_poll_in_five_asks_for_the_bitrate(s: PlayerView)
    requires
        s.writer,
        s.request_counter + 5 <= u64::MAX,
    ensures
        exists|k: nat|
            k < 5 && (#[trigger] polled_times(s, k)).poll_commands(ConnectStatus::Pending).contains(
                "{ \"command\": [\"get_property\", \"audio-bitrate\"], \"request_id\": 200 }"@.push('\n'),
            ) && polled_times(s, k).poll_commands(ConnectStatus::Pending).contains(
                "{ \"command\": [\"get_property\", \"demuxer-cache-duration\"], \"request_id\": 201 }"@.push('\n'),
            ),
{
    let k = ((4 - s.request_counter as int % 5) % 5) as nat;
    lemma_polled_times(s, k);
    assert((s.request_counter + k + 1) % 5 == 0);
    law_properties_are_asked_for_again_and_again(polled_times(s, k), ConnectStatus::Pending);
}

/// A piece that ends before its line does is kept behind what is there already,
/// byte for byte, and nothing more is to be read for now.
pub proof fn law_a_piece_of_a_line_is_kept(player: &mut Player, bytes: Vec<u8>, step: ReadStep)
    requires
        call_ensures(Player::receive, (player, ReadEvent::WouldBlock(bytes)), step),
    ensures
        step is Idle,
        final(player)@ == (PlayerView { line_buf: old(player).line_buf@ + bytes@, ..old(player)@ }),
{
}

/// A piece with a line break at its end completes the line: it comes out as the
/// text that all its bytes encode, without the white space at its end, and
/// nothing is left over.
pub proof fn law_a_line_comes_out_whole(player: &mut Player, bytes: Vec<u8>, step: ReadStep, text: Seq<char>)
    requires
        call_ensures(Player::receive, (player, ReadEvent::Data(bytes)), step),
        bytes@.len() > 0,
        bytes@.last() == 10,
        old(player).line_buf@ + bytes@ == encode_utf8(text),
    ensures
        step matches ReadStep::Line(line) && {
            &&& line@.len() <= text.len()
            &&& line@ == text.take(line@.len() as int)
            &&& forall|i: int| line@.len() <= i < text.len() ==> is_white_space(#[trigger] text[i])
            &&& line@.len() > 0 ==> !is_white_space(line@.last())
        },
        final(player)@ == (PlayerView { line_buf: Seq::empty(), ..old(player)@ }),
{
    encode_utf8_valid_utf8(text);
    encode_utf8_decode_utf8(text);
    law_the_end_is_trimmed(text);
    assert((old(player).line_buf@ + bytes@).last() == 10);
}

/// The connection is at its end with the stream, with an error, with a piece
/// that comes without its line break, and with a line that is not UTF-8.
pub proof fn law_what_ends_the_connection(player: &mut Player, read: ReadEvent, step: ReadStep)
    requires
        call_ensures(Player::receive, (player, read), step),
        match read {
            ReadEvent::Eof => true,
            ReadEvent::Failed => true,
            ReadEvent::WouldBlock(_) => false,
            ReadEvent::Data(bytes) => {
                let whole = old(player).line_buf@ + bytes@;
                whole.len() == 0 || whole.last() != 10 || forall|text: Seq<char>| encode_utf8(text) != whole
            },
        },
    ensures
        step is Closed,
        read matches ReadEvent::Data(bytes) ==> final(player)@ == (PlayerView {
            line_buf: old(player).line_buf@ + bytes@,
            ..old(player)@
        }),
        !(read is Data) ==> final(player)@ == old(player)@,
{
    if let ReadEvent::Data(bytes) = read {
        let whole = old(player).line_buf@ + bytes@;
        if valid_utf8(whole) {
            decode_utf8_encode_utf8(whole);
            assert(encode_utf8(decode_utf8(whole)) == whole);
        }
    }
}

/// A line from the pipe is the text that its bytes encode, without the white
/// space at its end; there is none where they are not UTF-8, or nothing came.
pub proof fn law_a_line_from_the_pipe(read: &ReadEvent, line: Option<String>, text: Seq<char>)
    requires
        call_ensures(pipe_line, (read,), line),
    ensures
        read matches ReadEvent::Data(bytes) && bytes@ == encode_utf8(text) ==> (line matches Some(line) && {
            &&& line@.len() <= text.len()
            &&& line@ == text.take(line@.len() as int)
            &&& forall|i: int| line@.len() <= i < text.len() ==> is_white_space(#[trigger] text[i])
            &&& line@.len() > 0 ==> !is_white_space(line@.last())
        }),
        read matches ReadEvent::Data(bytes) && (forall|t: Seq<char>| encode_utf8(t) != bytes@) ==> line is None,
        !(read is Data) ==> line is None,
{
    if let ReadEvent::Data(bytes) = read {
        encode_utf8_valid_utf8(text);
        encode_utf8_decode_utf8(text);
        law_the_end_is_trimmed(text);
        if valid_utf8(bytes@) {
            decode_utf8_encode_utf8(bytes@);
        }
    }
}

/// A line tells the position: it carries the number of that question, and data,
/// and speaks of no error.
pub open spec fn answers_the_position(line: Seq<char>) -> bool {
    &&& contains(line, "\"request_id\":100"@) || contains(line, "\"request_id\": 100"@)
    &&& contains(line, "\"data\":"@)
    &&& !contains(line, "\"error\""@)
}

/// Lines raise the level to 70 hundredths if one of them tells the position and
/// no audio is captured, and leave it alone otherwise.
pub proof fn law_what_raises_the_level(player: &mut Player, lines: &Vec<String>, closed: bool, action: Option<Action>)
    requires
        call_ensures(Player::absorb, (player, lines, closed), action),
    ensures
        old(player).capture ==> final(player).audio_level == old(player).audio_level,
        !old(player).capture && (exists|i: int|
            0 <= i < lines@.len() && answers_the_position(#[trigger] lines@[i]@)) ==> final(player).audio_level == 70,
        !(exists|i: int| 0 <= i < lines@.len() && answers_the_position(#[trigger] lines@[i]@))
            ==> final(player).audio_level == old(player).audio_level,
{
    let all = texts(lines@);
    assert forall|i: int| 0 <= i < all.len() implies #[trigger] all[i] == lines@[i]@ by {}
    assert(final(player)@.audio_level == final(player).audio_level);
    if exists|i: int| 0 <= i < lines@.len() && answers_the_position(#[trigger] lines@[i]@) {
        let i = choose|i: int| 0 <= i < lines@.len() && answers_the_position(#[trigger] lines@[i]@);
        assert(tells_position(all[i]));
    } else {
        assert forall|i: int| 0 <= i < all.len() implies !tells_position(#[trigger] all[i]) by {
            assert(!answers_the_position(lines@[i]@));
        }
    }
}

/// The connection is given up exactly where it has come to its end, together
/// with what was left of a line. Beside that, lines change the title, the level
/// and what is known of the stream, and nothing else.
pub proof fn law_what_lines_may_change(player: &mut Player, lines: &Vec<String>, closed: bool, action: Option<Action>)
    requires
        call_ensures(Player::absorb, (player, lines, closed), action),
    ensures
        closed ==> action == Some(Action::Hangup) && !final(player).writer && !final(player).reader && final(player).line_buf@.len() == 0,
        !closed ==> action is None && final(player).writer == old(player).writer && final(player).reader == old(player).reader && final(player).line_buf@ == old(player).line_buf@,
        final(player)@ == (PlayerView {
            writer: final(player).writer,
            reader: final(player).reader,
            line_buf: final(player).line_buf@,
            media_title: final(player)@.media_title,
            audio_level: final(player).audio_level,
            stream_info: final(player)@.stream_info,
            ..old(player)@
        }),
{
    assert(final(player)@.writer == final(player).writer && final(player)@.reader == final(player).reader);
    assert(final(player)@.line_buf == final(player).line_buf@);
    assert(final(player)@.audio_level == final(player).audio_level);
}

/// Lines that do not contain `media-title` leave the title as it is.
pub proof fn law_other_lines_leave_the_title(
    player: &mut Player,
    lines: &Vec<String>,
    closed: bool,
    action: Option<Action>,
)
    requires
        call_ensures(Player::absorb, (player, lines, closed), action),
        forall|i: int| 0 <= i < lines@.len() ==> !contains(#[trigger] lines@[i]@, "media-title"@),
    ensures
        final(player)@.media_title == old(player)@.media_title,
{
    let all = texts(lines@);
    assert forall|i: int| 0 <= i < all.len() implies media_title(#[trigger] all[i]) is None by {
        assert(all[i] == lines@[i]@);
    }
    lemma_title_stays(all, old(player)@.media_title, 0);
}

proof fn lemma_title_stays(lines: Seq<Seq<char>>, title: Option<Seq<char>>, from: int)
    requires
        0 <= from <= lines.len(),
        forall|i: int|
            from <= i < lines.len() ==> !(media_title(#[trigger] lines[i]) matches Some(t) && t.len() > 0),
    ensures
        latest_title(lines, title) == latest_title(lines.take(from), title),
    decreases lines.len() - from,
{
    if from == lines.len() {
        assert(lines.take(from) =~= lines);
    } else {
        let shorter = lines.drop_last();
        assert forall|i: int| from <= i < shorter.len() implies !(media_title(#[trigger] shorter[i]) matches Some(t)
            && t.len() > 0) by {
            assert(shorter[i] == lines[i]);
        }
        lemma_title_stays(shorter, title, from);
        assert(shorter.take(from) =~= lines.take(from));
        assert(lines.last() == lines[lines.len() - 1]);
    }
}

/// Of several lines with a title the last one counts; an empty title does not.
pub proof fn law_the_last_title_is_shown(
    player: &mut Player,
    lines: &Vec<String>,
    closed: bool,
    action: Option<Action>,
    k: int,
    title: Seq<char>,
)
    requires
        call_ensures(Player::absorb, (player, lines, closed), action),
        0 <= k < lines@.len(),
        media_title(lines@[k]@) == Some(title),
        title.len() > 0,
        forall|i: int|
            k < i < lines@.len() ==> !(media_title(#[trigger] lines@[i]@) matches Some(t) && t.len() > 0),
    ensures
        final(player).media_title matches Some(shown) && shown@ == title,
{
    let all = texts(lines@);
    assert forall|i: int| k + 1 <= i < all.len() implies !(media_title(#[trigger] all[i]) matches Some(t) && t.len()
        > 0) by {
        assert(all[i] == lines@[i]@);
    }
    lemma_title_stays(all, old(player)@.media_title, k + 1);
    assert(all.take(k + 1).last() == lines@[k]@);
    assert(final(player)@.media_title == Some(title));
}

/// Lines without a title, or with an empty one, leave it as it is.
pub proof fn law_the_title_stays_without_a_new_one(
    player: &mut Player,
    lines: &Vec<String>,
    closed: bool,
    action: Option<Action>,
)
    requires
        call_ensures(Player::absorb, (player, lines, closed), action),
        forall|i: int|
            0 <= i < lines@.len() ==> !(media_title(#[trigger] lines@[i]@) matches Some(t) && t.len() > 0),
    ensures
        final(player)@.media_title == old(player)@.media_title,
{
    let all = texts(lines@);
    assert forall|i: int| 0 <= i < all.len() implies !(media_title(#[trigger] all[i]) matches Some(t) && t.len() > 0) by {
        assert(all[i] == lines@[i]@);
    }
    lemma_title_stays(all, old(player)@.media_title, 0);
    assert(all.take(0) =~= Seq::<Seq<char>>::empty());
}

/// What is known of the stream follows the lines one after the other, each once
/// and in order.
pub proof fn law_stream_info_follows_the_lines(
    player: &mut Player,
    lines: &Vec<String>,
    closed: bool,
    action: Option<Action>,
)
    requires
        call_ensures(Player::absorb, (player, lines, closed), action),
    ensures
        final(player).stream_info@ == texts(lines@).fold_left(
            old(player).stream_info@,
            |info: StreamInfoView, line: Seq<char>| info.after_line(line),
        ),
        final(player).stream_info.stream_connected_at == old(player).stream_info.stream_connected_at,
{
    lemma_lines_in_order(old(player)@.stream_info, old(player)@.media_title, texts(lines@));
    crate::player::lemma_info_keeps_start(old(player)@.stream_info, texts(lines@));
    assert(final(player)@.stream_info == final(player).stream_info@);
}

/// One line does to a player what it does to what is known of a stream.
pub proof fn law_a_line_is_parsed(
    player: &mut Player,
    line: &str,
    lines: &Vec<String>,
    closed: bool,
    action: Option<Action>,
    info: &mut StreamInfo,
)
    requires
        call_ensures(Player::absorb, (player, lines, closed), action),
        call_ensures(parse_stream_info, (info, line), ()),
        lines@.len() == 1,
        lines@[0]@ == line@,
        old(info)@ == old(player).stream_info@,
    ensures
        final(info)@ == final(player).stream_info@,
{
    let all = texts(lines@);
    assert(all.drop_last() =~= Seq::<Seq<char>>::empty());
    assert(all.last() == line@);
    assert(final(player)@.stream_info == final(player).stream_info@);
    assert(old(player)@.stream_info == old(player).stream_info@);
    assert(info_after(old(player)@.stream_info, all.drop_last()) == old(player)@.stream_info);
}

/// The texts of a list are those of its strings, in order.
pub proof fn law_the_texts_of_a_list(list: Seq<String>, i: int)
    ensures
        texts(list).len() == list.len(),
        0 <= i < list.len() ==> texts(list)[i] == list[i]@,
{
}

/// Every call can be made in every state, except that polls can be counted only
/// so far.
pub proof fn law_every_call_can_be_made(
    player: &mut Player,
    platform: Platform,
    server: String,
    found: bool,
    url: &str,
    volume: u32,
    started_at: Option<Instant>,
    outcome: CaptureOutcome,
    lines: &Vec<String>,
    i: usize,
    status: ConnectStatus,
    read: ReadEvent,
    pid: u32,
)
    ensures
        call_requires(Player::new, (platform, server, found)),
        call_requires(Player::has_real_audio, (&*old(player),)),
        call_requires(Player::is_playing, (&*old(player),)),
        call_requires(Player::is_reading, (&*old(player),)),
        call_requires(Player::stop, (player,)),
        call_requires(Player::play_url, (player, url, volume)),
        call_requires(Player::finish_play, (player, started_at)),
        call_requires(Player::capture_started, (player, outcome)),
        call_requires(Player::stop_capture_if_running, (player,)),
        call_requires(Player::restart_capture, (&*old(player),)),
        call_requires(Player::may_write, (&*old(player), lines, i)),
        call_requires(Player::write_failed, (player,)),
        call_requires(Player::set_volume, (&*old(player), volume)),
        old(player).request_counter < u64::MAX ==> call_requires(Player::poll, (player, status)),
        call_requires(Player::receive, (player, read)),
        call_requires(Player::absorb, (player, lines, found)),
        call_requires(pipe_line, (&read,)),
        call_requires(socket_file_name, (pid,)),
        call_requires(pipe_name, (pid,)),
{
}

} // verus!
