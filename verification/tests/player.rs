use aethertune::player::{
    pipe_line, pipe_name, socket_file_name, Action, CaptureOutcome, ConnectStatus, Platform, Player, ReadEvent,
    ReadStep,
};
use std::time::Instant;

fn idle(platform: Platform) -> Player {
    Player::new(platform, "/tmp/mpv".to_string(), true)
}

/// A player that has just started a stream, with nothing connected yet.
fn started(platform: Platform) -> Player {
    let mut player = idle(platform);
    player.play_url("http://radio.example/stream", 80);
    player.finish_play(Some(Instant::now()));
    player
}

/// A player that is connected to mpv.
fn connected(platform: Platform) -> Player {
    let mut player = started(platform);
    let generation = player.ipc_generation;
    player.poll(ConnectStatus::Ready { generation });
    player
}

fn line(step: ReadStep) -> Option<String> {
    match step {
        ReadStep::Line(line) => Some(line),
        _ => None,
    }
}

#[test]
fn names_carry_the_process_number() {
    assert_eq!(socket_file_name(4711), "aethertune-mpv-4711");
    assert_eq!(pipe_name(0), "\\\\.\\pipe\\aethertune-mpv-0");
}

#[test]
fn a_new_player_is_idle() {
    let player = idle(Platform::Linux);
    assert!(!player.is_playing());
    assert!(!player.has_real_audio());
    assert!(!player.is_reading());
    assert!(player.visualizer_enabled);
    assert_eq!(player.audio_level, 0);
    assert_eq!(player.media_title, None);
    assert_eq!(player.ipc_generation, 0);
}

#[test]
fn mpv_arguments() {
    let mut player = idle(Platform::Linux);
    let (actions, args) = player.play_url("http://radio.example/a b", 65);
    assert_eq!(actions, vec![Action::Disconnect, Action::ClearAnalysis, Action::RemoveSocket]);
    assert_eq!(args, vec!["http://radio.example/a b", "--no-video", "--volume=65", "--input-ipc-server=/tmp/mpv"]);
    assert!(!player.is_playing());
}

#[test]
fn starting_connects_and_captures() {
    for (platform, expected) in [
        (Platform::Linux, vec![Action::Connect { generation: 1 }, Action::StartCapture]),
        (Platform::MacOs, vec![Action::Connect { generation: 1 }, Action::StartCapture]),
        (Platform::Windows, vec![Action::AssignJob, Action::Connect { generation: 1 }, Action::StartCapture]),
    ] {
        let mut player = idle(platform);
        player.play_url("u", 1);
        let (playing, actions) = player.finish_play(Some(Instant::now()));
        assert!(playing);
        assert!(player.is_playing());
        assert!(player.stream_info.stream_connected_at.is_some());
        assert_eq!(actions, expected);
    }
}

#[test]
fn capture_needs_a_tool_and_the_visualizer() {
    let mut player = Player::new(Platform::Linux, "s".to_string(), false);
    player.play_url("u", 1);
    assert_eq!(player.finish_play(Some(Instant::now())).1, vec![Action::Connect { generation: 1 }]);
    let mut player = Player::new(Platform::Windows, "s".to_string(), false);
    player.play_url("u", 1);
    assert_eq!(
        player.finish_play(Some(Instant::now())).1,
        vec![Action::AssignJob, Action::Connect { generation: 1 }, Action::StartCapture]
    );
    let mut player = idle(Platform::Linux);
    player.visualizer_enabled = false;
    player.play_url("u", 1);
    assert_eq!(player.finish_play(Some(Instant::now())).1, vec![Action::Connect { generation: 1 }]);
}

#[test]
fn a_failed_start_leaves_the_player_idle() {
    let mut player = idle(Platform::Linux);
    player.play_url("u", 1);
    let (playing, actions) = player.finish_play(None);
    assert!(!playing);
    assert!(actions.is_empty());
    assert!(!player.is_playing());
}

#[test]
fn stopping_goes_in_order() {
    let mut player = connected(Platform::Linux);
    player.capture_started(CaptureOutcome::Running);
    assert_eq!(
        player.stop(),
        vec![
            Action::Disconnect,
            Action::KillCapture,
            Action::RemoveFifo,
            Action::JoinCapture { limit_ms: 200 },
            Action::ClearAnalysis,
            Action::KillMpv,
            Action::RemoveSocket,
        ]
    );
    let mut player = connected(Platform::Windows);
    player.capture_started(CaptureOutcome::Running);
    assert_eq!(
        player.stop(),
        vec![
            Action::Disconnect,
            Action::SignalCapture,
            Action::JoinCapture { limit_ms: 300 },
            Action::ClearAnalysis,
            Action::KillMpv,
            Action::JoinPipeReader { limit_ms: 300 },
            Action::RemoveSocket,
        ]
    );
}

#[test]
fn stopping_leaves_nothing() {
    let mut player = connected(Platform::MacOs);
    player.capture_started(CaptureOutcome::Running);
    player.receive(ReadEvent::WouldBlock("half a".into()));
    player.absorb(&vec!["media-title \"data\":\"T\"".to_string(), "\"id\":3 \"data\":5".to_string()], false);
    player.stop();
    assert!(!player.is_playing() && !player.has_real_audio() && !player.is_reading());
    assert!(!player.connecting && !player.writer);
    assert!(player.line_buf.is_empty());
    assert_eq!(player.media_title, None);
    assert_eq!(player.stream_info.sample_rate, 0);
    assert!(player.stream_info.stream_connected_at.is_none());
    let generation = player.ipc_generation;
    let again = player.stop();
    assert_eq!(
        again,
        vec![Action::Disconnect, Action::SignalCapture, Action::ClearAnalysis, Action::RemoveSocket]
    );
    assert_eq!(player.ipc_generation, generation + 1);
}

#[test]
fn generations_start_over() {
    let mut player = idle(Platform::Linux);
    player.ipc_generation = u64::MAX;
    player.stop();
    assert_eq!(player.ipc_generation, 0);
}

#[test]
fn a_late_connection_is_discarded() {
    let mut player = started(Platform::Linux);
    let old = player.ipc_generation;
    player.play_url("another", 50);
    player.finish_play(Some(Instant::now()));
    let lines = player.poll(ConnectStatus::Ready { generation: old });
    assert!(lines.is_empty());
    assert!(!player.is_reading());
    assert!(!player.connecting);
}

#[test]
fn a_connection_asks_for_reports() {
    let mut player = started(Platform::Linux);
    let generation = player.ipc_generation;
    assert!(player.poll(ConnectStatus::Pending).is_empty());
    assert!(player.connecting);
    let lines = player.poll(ConnectStatus::Ready { generation });
    assert_eq!(
        lines,
        vec![
            "{ \"command\": [\"observe_property\", 1, \"media-title\"] }\n\
             { \"command\": [\"observe_property\", 2, \"audio-codec-name\"] }\n\
             { \"command\": [\"observe_property\", 3, \"audio-params/samplerate\"] }\n\
             { \"command\": [\"observe_property\", 4, \"audio-params/channel-count\"] }\n"
        ]
    );
    assert!(player.is_reading() && player.writer);
}

#[test]
fn an_attempt_that_gave_up_is_over() {
    let mut player = started(Platform::Linux);
    player.poll(ConnectStatus::Failed);
    assert!(!player.connecting && !player.is_reading());
}

#[test]
fn polls_ask_in_turn() {
    let mut player = connected(Platform::Linux);
    let position = "{ \"command\": [\"get_property\", \"audio-pts\"], \"request_id\": 100 }\n";
    let bitrate = "{ \"command\": [\"get_property\", \"audio-bitrate\"], \"request_id\": 200 }\n";
    let cache = "{ \"command\": [\"get_property\", \"demuxer-cache-duration\"], \"request_id\": 201 }\n";
    player.request_counter = 0;
    let mut asked = Vec::new();
    for _ in 0..15 {
        asked.push(player.poll(ConnectStatus::Pending));
    }
    assert!(asked[0].is_empty());
    assert_eq!(asked[2], vec![position]);
    assert_eq!(asked[4], vec![bitrate, cache]);
    assert_eq!(asked[14], vec![position, bitrate, cache]);
    player.capture_started(CaptureOutcome::Running);
    player.request_counter = 2;
    assert!(player.poll(ConnectStatus::Pending).is_empty());
}

#[test]
fn nothing_is_sent_without_a_connection() {
    let mut player = started(Platform::Linux);
    assert_eq!(player.set_volume(40), None);
    for _ in 0..20 {
        assert!(player.poll(ConnectStatus::Pending).is_empty());
    }
}

#[test]
fn volume_is_a_command() {
    let mut player = connected(Platform::Linux);
    assert_eq!(
        player.set_volume(40),
        Some("{ \"command\": [\"set_property\", \"volume\", 40] }\n".to_string())
    );
    player.write_failed();
    assert_eq!(player.set_volume(40), None);
    assert!(player.is_reading());
}

#[test]
fn lines_come_out_trimmed() {
    let mut player = connected(Platform::Linux);
    assert_eq!(line(player.receive(ReadEvent::Data("{\"a\":1} \r\n".into()))), Some("{\"a\":1}".to_string()));
    assert!(player.line_buf.is_empty());
    assert_eq!(line(player.receive(ReadEvent::Data("\n".into()))), Some(String::new()));
}

#[test]
fn a_partial_line_waits_for_its_rest() {
    let mut player = connected(Platform::Linux);
    assert!(matches!(player.receive(ReadEvent::WouldBlock("{\"da".into())), ReadStep::Idle));
    assert!(player.absorb(&Vec::new(), false).is_none());
    assert!(matches!(player.receive(ReadEvent::WouldBlock("ta\":".into())), ReadStep::Idle));
    assert_eq!(line(player.receive(ReadEvent::Data("5}\n".into()))), Some("{\"data\":5}".to_string()));
}

#[test]
fn lines_survive_the_cuts() {
    let stream = "one\ntwo \nthree\nrest";
    let expected = ["one", "two", "three"];
    for cut in 0..stream.len() {
        let mut player = connected(Platform::Linux);
        let mut lines = Vec::new();
        for part in [&stream[..cut], &stream[cut..]] {
            let mut left = part;
            while let Some(end) = left.find('\n') {
                lines.extend(line(player.receive(ReadEvent::Data(left[..end + 1].into()))));
                left = &left[end + 1..];
            }
            assert!(matches!(player.receive(ReadEvent::WouldBlock(left.into())), ReadStep::Idle));
        }
        assert_eq!(lines, expected);
        assert_eq!(player.line_buf, b"rest");
    }
}

/// Hands over what has arrived by one poll, and ends the poll.
fn poll_brings(player: &mut Player, bytes: &[u8]) {
    player.poll(ConnectStatus::Pending);
    let mut lines = Vec::new();
    let mut left = bytes;
    while let Some(end) = left.iter().position(|&b| b == b'\n') {
        lines.extend(line(player.receive(ReadEvent::Data(left[..end + 1].to_vec()))));
        left = &left[end + 1..];
    }
    assert!(matches!(player.receive(ReadEvent::WouldBlock(left.to_vec())), ReadStep::Idle));
    assert!(player.absorb(&lines, false).is_none());
}

#[test]
fn a_character_may_be_cut() {
    let text = "{\"event\":\"property-change\",\"id\":1,\"name\":\"media-title\",\"data\":\"Café\"}\n".as_bytes();
    let cut = text.iter().position(|&b| b == 0xc3).unwrap() + 1;
    let mut player = connected(Platform::Linux);
    poll_brings(&mut player, &text[..cut]);
    assert_eq!(player.media_title, None);
    assert_eq!(player.line_buf, &text[..cut]);
    poll_brings(&mut player, &text[cut..]);
    assert_eq!(player.media_title, Some("Café".to_string()));
    assert!(player.line_buf.is_empty());
}

#[test]
fn the_spread_over_polls_does_not_matter() {
    let text = "media-title \"data\":\"Ünü\"\n{\"id\":3,\"data\":44100}\n\
        {\"data\":1.5,\"request_id\":100}\nmedia-title \"data\":\"日本\"\n{\"id\":4,\"data\":2}\nrést"
        .as_bytes();
    for first in 0..=text.len() {
        for step in [1, 7, 64] {
            let mut player = connected(Platform::Linux);
            let connected_at = player.stream_info.stream_connected_at;
            let generation = player.ipc_generation;
            poll_brings(&mut player, &text[..first]);
            for part in text[first..].chunks(step) {
                poll_brings(&mut player, part);
            }
            assert_eq!(player.media_title, Some("日本".to_string()));
            assert_eq!(player.stream_info.sample_rate, 44100);
            assert_eq!(player.stream_info.channels, 2);
            assert_eq!(player.audio_level, 70);
            assert_eq!(player.line_buf, "rést".as_bytes());
            assert_eq!(player.stream_info.stream_connected_at, connected_at);
            assert_eq!(player.ipc_generation, generation);
            assert!(player.is_playing() && player.is_reading() && player.visualizer_enabled);
        }
    }
}

#[test]
fn each_line_counts_once_and_in_order() {
    let mut player = connected(Platform::Linux);
    poll_brings(&mut player, b"{\"id\":3,\"data\":1}\n{\"id\":3,\"data\":2}\nmedia-title \"data\":\"A\"\n");
    assert_eq!(player.stream_info.sample_rate, 2);
    assert_eq!(player.media_title, Some("A".to_string()));
    poll_brings(&mut player, b"media-title \"data\":\"B\"\n");
    assert_eq!(player.stream_info.sample_rate, 2);
    assert_eq!(player.media_title, Some("B".to_string()));
}

#[test]
fn a_line_that_is_no_text_closes_the_connection() {
    for bytes in [&b"\xff\n"[..], b"Caf\xc3\n", b"\xed\xa0\x80\n", b"\xc0\x80\n", b"\xf4\x90\x80\x80\n"] {
        let mut player = connected(Platform::Linux);
        assert!(matches!(player.receive(ReadEvent::Data(bytes.to_vec())), ReadStep::Closed));
    }
}

#[test]
fn what_tells_the_position() {
    for (text, level) in [
        ("{\"data\":1.5,\"request_id\":100}", 70),
        ("{\"data\":1.5,\"request_id\": 100}", 70),
        ("{\"request_id\":1000,\"data\":1}", 70),
        ("{\"request_id\": 1007,\"data\":1}", 70),
        ("{\"data\":1.5,\"request_id\":10}", 0),
        ("{\"data\":1.5,\"request_id\":  100}", 0),
        ("{\"request_id\":100}", 0),
        ("{\"data\":1.5,\"request_id\":100,\"error\":\"success\"}", 0),
    ] {
        let mut player = connected(Platform::Linux);
        player.absorb(&vec![text.to_string()], false);
        assert_eq!(player.audio_level, level, "{}", text);
        let mut player = connected(Platform::Linux);
        player.capture_started(CaptureOutcome::Running);
        player.absorb(&vec![text.to_string()], false);
        assert_eq!(player.audio_level, 0);
    }
}

#[test]
fn the_parts_of_an_answer_stand_on_one_line() {
    let mut player = connected(Platform::Linux);
    player.absorb(&vec!["{\"request_id\":100}".to_string(), "{\"data\":1}".to_string()], false);
    assert_eq!(player.audio_level, 0);
}

#[test]
fn a_failed_write_is_the_last() {
    let mut player = started(Platform::Linux);
    player.request_counter = 14;
    let lines = player.poll(ConnectStatus::Ready { generation: player.ipc_generation });
    assert_eq!(lines.len(), 4);
    assert!(player.may_write(&lines, 0) && player.may_write(&lines, 3));
    assert!(!player.may_write(&lines, 4));
    player.write_failed();
    for i in 0..5 {
        assert!(!player.may_write(&lines, i));
    }
    assert_eq!(player.set_volume(10), None);
    player.request_counter = 29;
    assert!(player.poll(ConnectStatus::Pending).is_empty());
    assert!(player.is_reading());
}

#[test]
fn a_stop_outdates_the_attempt() {
    let mut player = started(Platform::Linux);
    let late = ConnectStatus::Ready { generation: player.ipc_generation };
    player.ipc_generation = u64::MAX;
    player.stop();
    assert_eq!(player.ipc_generation, 0);
    let mut player = started(Platform::Linux);
    player.stop();
    player.poll(late);
    assert!(!player.writer && !player.is_reading());
    player.play_url("u", 1);
    player.finish_play(Some(Instant::now()));
    player.poll(late);
    assert!(!player.writer && !player.is_reading());
}

#[test]
fn the_end_of_the_stream_closes_the_connection() {
    for end in [ReadEvent::Eof, ReadEvent::Failed, ReadEvent::Data("no line break".into())] {
        let mut player = connected(Platform::Linux);
        player.receive(ReadEvent::WouldBlock("half".into()));
        assert!(matches!(player.receive(end), ReadStep::Closed));
        assert_eq!(player.absorb(&Vec::new(), true), Some(Action::Hangup));
        assert!(!player.is_reading() && !player.writer);
        assert!(player.line_buf.is_empty());
        assert!(player.is_playing());
    }
}

#[test]
fn pipe_lines() {
    assert_eq!(pipe_line(&ReadEvent::Data("x \r\n".into())), Some("x".to_string()));
    assert_eq!(pipe_line(&ReadEvent::Data("last".into())), Some("last".to_string()));
    assert_eq!(pipe_line(&ReadEvent::Data("é\n".into())), Some("é".to_string()));
    assert_eq!(pipe_line(&ReadEvent::Data(vec![0xc3, 10])), None);
    assert_eq!(pipe_line(&ReadEvent::Eof), None);
    assert_eq!(pipe_line(&ReadEvent::Failed), None);
    assert_eq!(pipe_line(&ReadEvent::WouldBlock("x".into())), None);
}

#[test]
fn the_last_title_counts() {
    let mut player = connected(Platform::Linux);
    let lines: Vec<String> = ["media-title \"data\":\"A\"", "media-title \"data\":\"B\"", "media-title \"data\":\"\"", "x"]
        .iter()
        .map(|l| l.to_string())
        .collect();
    assert_eq!(player.absorb(&lines, false), None);
    assert_eq!(player.media_title, Some("B".to_string()));
    player.absorb(&vec!["nothing".to_string()], true);
    assert_eq!(player.media_title, Some("B".to_string()));
}

#[test]
fn lines_update_the_stream_info() {
    let mut player = connected(Platform::Linux);
    player.absorb(&vec!["\"id\":3,\"data\":22050".to_string(), "\"id\":3,\"data\":44100".to_string()], false);
    assert_eq!(player.stream_info.sample_rate, 44100);
}

#[test]
fn a_position_means_sound() {
    let mut player = connected(Platform::Linux);
    player.absorb(&vec!["{\"data\":1,\"request_id\":100,\"error\":\"success\"}".to_string()], false);
    assert_eq!(player.audio_level, 0);
    player.absorb(&vec!["{\"request_id\":100}".to_string()], false);
    assert_eq!(player.audio_level, 0);
    player.absorb(&vec!["{\"data\":1,\"request_id\": 100}".to_string()], false);
    assert_eq!(player.audio_level, 70);
    let mut player = connected(Platform::Linux);
    player.capture_started(CaptureOutcome::Running);
    player.absorb(&vec!["{\"data\":1,\"request_id\":100}".to_string()], false);
    assert_eq!(player.audio_level, 0);
}

#[test]
fn capture_starts_once() {
    let mut player = started(Platform::Linux);
    assert_eq!(player.restart_capture(), Some(Action::StartCapture));
    assert_eq!(player.capture_started(CaptureOutcome::NoFifo), None);
    assert!(!player.has_real_audio());
    assert_eq!(player.capture_started(CaptureOutcome::Refused), Some(Action::RemoveFifo));
    assert!(!player.has_real_audio());
    assert_eq!(player.capture_started(CaptureOutcome::Running), None);
    assert!(player.has_real_audio());
    assert_eq!(player.restart_capture(), None);
    assert_eq!(idle(Platform::Linux).restart_capture(), None);
    let mut player = started(Platform::MacOs);
    assert_eq!(player.capture_started(CaptureOutcome::Refused), None);
    player.has_capture_tool = false;
    assert_eq!(player.restart_capture(), None);
}

#[test]
fn capture_stops_only_if_it_runs() {
    let mut player = started(Platform::Linux);
    assert!(player.stop_capture_if_running().is_empty());
    player.capture_started(CaptureOutcome::Running);
    assert_eq!(
        player.stop_capture_if_running(),
        vec![
            Action::KillCapture,
            Action::RemoveFifo,
            Action::JoinCapture { limit_ms: 200 },
            Action::ClearAnalysis
        ]
    );
    assert!(!player.has_real_audio());
    assert!(player.is_playing());
}

#[test]
fn a_new_stream_starts_afresh() {
    let mut player = connected(Platform::Linux);
    player.absorb(&vec!["media-title \"data\":\"Old\"".to_string(), "\"id\":4,\"data\":6".to_string()], false);
    let before = player.ipc_generation;
    player.play_url("another", 10);
    player.finish_play(Some(Instant::now()));
    assert_eq!(player.media_title, None);
    assert_eq!(player.stream_info.channels, 0);
    assert!(player.connecting);
    assert_eq!(player.ipc_generation, before + 1);
}

fn assert_consistent(player: &Player) {
    assert!(!player.capture || player.process);
    assert!(!player.connecting || (player.process && !player.reader));
    assert!(!player.writer || player.reader);
    assert!(!player.reader || player.process);
    assert!(player.reader || player.line_buf.is_empty());
    assert_eq!(player.process, player.stream_info.stream_connected_at.is_some());
    if !player.process {
        assert_eq!(player.media_title, None);
        assert_eq!(player.audio_level, 0);
    }
}

#[test]
fn the_state_stays_consistent() {
    for platform in [Platform::Linux, Platform::MacOs, Platform::Windows] {
        let mut player = idle(platform);
        let mut seed: u32 = 12345;
        for _ in 0..5000 {
            seed = seed.wrapping_mul(1664525).wrapping_add(1013904223);
            let generation = player.ipc_generation - (seed >> 30) as u64 % (player.ipc_generation + 1);
            match (seed >> 16) % 12 {
                0 => {
                    player.stop();
                }
                1 => {
                    player.play_url("u", 1);
                    player.finish_play(if seed & 0x100 == 0 { Some(Instant::now()) } else { None });
                }
                2 if player.process => {
                    player.capture_started(CaptureOutcome::Running);
                }
                3 => {
                    player.stop_capture_if_running();
                }
                4 => player.write_failed(),
                5 | 6 => {
                    player.poll(ConnectStatus::Ready { generation });
                }
                7 => {
                    player.poll(ConnectStatus::Failed);
                }
                8 if player.reader => {
                    player.receive(ReadEvent::WouldBlock("ab".into()));
                }
                9 if player.reader => {
                    player.receive(ReadEvent::Data("c\n".into()));
                }
                10 if player.reader => {
                    player.absorb(&vec!["media-title \"data\":\"T\"".to_string()], seed & 0x200 == 0);
                }
                _ => {
                    player.poll(ConnectStatus::Pending);
                }
            }
            assert_consistent(&player);
        }
    }
}
