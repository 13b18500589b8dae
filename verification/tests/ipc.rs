use aethertune::mpv_ipc::{
    extract_media_title, extract_number, extract_string_value, format_uptime, parse_stream_info, StreamInfo,
};
use std::time::Instant;

fn number(line: &str) -> Option<String> {
    extract_number(line).map(|n| n.as_str().to_string())
}

#[test]
fn string_value_is_found() {
    let line = "{\"event\":\"property-change\",\"id\":2,\"name\":\"audio-codec-name\",\"data\":\"mp3\"}";
    assert_eq!(extract_string_value(line), Some("mp3".to_string()));
    assert_eq!(extract_string_value("{\"data\": \t \"aac\"}"), Some("aac".to_string()));
    assert_eq!(extract_string_value("{\"data\":\"\"}"), Some(String::new()));
}

#[test]
fn string_value_needs_a_closed_string() {
    assert_eq!(extract_string_value("{\"data\":null}"), None);
    assert_eq!(extract_string_value("{\"data\":\"open"), None);
    assert_eq!(extract_string_value("{\"name\":\"x\"}"), None);
    assert_eq!(extract_string_value("{\"data\":"), None);
    assert_eq!(extract_string_value(""), None);
}

#[test]
fn string_value_stops_at_the_first_quotation_mark() {
    assert_eq!(extract_string_value("\"data\":\"a\\\"b\""), Some("a\\".to_string()));
}

#[test]
fn only_the_first_data_key_counts() {
    assert_eq!(extract_string_value("\"data\":\"one\",\"data\":\"two\""), Some("one".to_string()));
    assert_eq!(number("\"data\":null,\"data\":5"), None);
}

#[test]
fn title_is_found() {
    let line = "{\"event\":\"property-change\",\"id\":1,\"name\":\"media-title\",\"data\":\"Artist - Song\"}";
    assert_eq!(extract_media_title(line), Some("Artist - Song".to_string()));
}

#[test]
fn title_escapes_are_resolved() {
    assert_eq!(
        extract_media_title("media-title \"data\": \"say \\\"hi\\\" \\\\ now\""),
        Some("say \"hi\" \\ now".to_string())
    );
    assert_eq!(extract_media_title("media-title \"data\":\"two\\nlines\""), Some("two lines".to_string()));
    assert_eq!(extract_media_title("media-title \"data\":\"a\\/b\\tc\""), Some("a/btc".to_string()));
}

#[test]
fn title_keeps_other_scripts() {
    assert_eq!(
        extract_media_title("media-title \"data\":\"\u{43f}\u{435}\u{441}\u{43d}\u{44f} \u{1f3b5}\""),
        Some("\u{43f}\u{435}\u{441}\u{43d}\u{44f} \u{1f3b5}".to_string())
    );
}

#[test]
fn title_may_be_missing() {
    assert_eq!(extract_media_title("{\"name\":\"volume\",\"data\":\"x\"}"), None);
    assert_eq!(extract_media_title("{\"name\":\"media-title\"}"), None);
    assert_eq!(extract_media_title("{\"name\":\"media-title\",\"data\":null}"), None);
    assert_eq!(extract_media_title("media-title \"data\":\"open"), None);
    assert_eq!(extract_media_title("media-title \"data\":\"open\\"), None);
    assert_eq!(extract_media_title("media-title \"data\":\"\""), Some(String::new()));
}

#[test]
fn title_is_read_back_whatever_it_holds() {
    let titles = ["", "plain", "a \"b\" c", "\\", "\\\\\"", "n\\n\"n", "\u{e9}\u{2014}\u{1f600}"];
    for title in titles.iter() {
        let escaped = title.replace('\\', "\\\\").replace('"', "\\\"");
        let line = format!("{{\"name\":\"media-title\",\"data\": \"{}\",\"id\":1}}", escaped);
        assert_eq!(extract_media_title(&line), Some(title.to_string()));
    }
}

#[test]
fn white_space_is_skipped() {
    let white = |n: u32| {
        (0x09..=0x0d).contains(&n)
            || (0x2000..=0x200a).contains(&n)
            || [0x20, 0x85, 0xa0, 0x1680, 0x2028, 0x2029, 0x202f, 0x205f, 0x3000].contains(&n)
    };
    for n in 0..0x110000u32 {
        if let Some(c) = char::from_u32(n) {
            let found = number(&format!("\"data\":{}7", c));
            if white(n) {
                assert_eq!(found, Some("7".to_string()));
            } else if !c.is_ascii_digit() && c != '.' && c != '-' {
                assert_eq!(found, None);
            }
        }
    }
}

#[test]
fn number_is_found() {
    assert_eq!(number("{\"data\":128000,\"request_id\":200,\"error\":\"success\"}"), Some("128000".to_string()));
    assert_eq!(number("{\"data\": 12.345 }"), Some("12.345".to_string()));
    assert_eq!(number("{\"data\":-0.5}"), Some("-0.5".to_string()));
    assert_eq!(number("{\"data\":.5}"), Some(".5".to_string()));
    assert_eq!(number("{\"data\":5.}"), Some("5.".to_string()));
    assert_eq!(number("{\"data\":1e5}"), Some("1".to_string()));
}

#[test]
fn number_may_be_missing() {
    assert_eq!(number("{\"data\":null}"), None);
    assert_eq!(number("{\"data\":\"5\"}"), None);
    assert_eq!(number("{\"value\":5}"), None);
    assert_eq!(number("{\"data\":.}"), None);
    assert_eq!(number("{\"data\":-}"), None);
    assert_eq!(number("{\"data\":-.}"), None);
    assert_eq!(number("{\"data\":--5}"), None);
    assert_eq!(number("{\"data\":1.2.3}"), None);
    assert_eq!(number("{\"data\":5-3}"), None);
}

/// All texts of up to `n` characters that a number can be made of.
fn texts(n: usize) -> Vec<String> {
    let mut all = vec![String::new()];
    let mut last = vec![String::new()];
    for _ in 0..n {
        let mut next = Vec::new();
        for text in &last {
            for c in ['0', '1', '9', '.', '-'] {
                next.push(format!("{}{}", text, c));
            }
        }
        all.extend(next.iter().cloned());
        last = next;
    }
    all
}

#[test]
fn numbers_are_those_that_floating_point_parsing_takes() {
    for text in texts(6) {
        let parsed = text.parse::<f64>().ok();
        let found = extract_number(&format!("\"data\":{} ", text));
        assert_eq!(parsed.is_some(), found.is_some());
        if let (Some(value), Some(n)) = (parsed, found) {
            assert_eq!(n.as_str(), text);
            assert_eq!(n.to_u32(), value as u32);
        }
    }
}

#[test]
fn counts_are_cut_from_the_nearest_double() {
    let mut cases: Vec<String> = Vec::new();
    for whole in [0u64, 1, 2, 3, 4, 7, 8, 44099, 44100, 65535, 65536, 2147483647, 2147483648, 4294967293, 4294967294, 4294967295, 4294967296] {
        for digits in 1..60usize {
            cases.push(format!("{}.{}", whole, "9".repeat(digits)));
            cases.push(format!("{}.{}8", whole, "9".repeat(digits)));
        }
        // The halfway point below the next whole number, a little less, and a little more.
        for bits in 20..56u32 {
            let mut rest: u128 = (1u128 << bits) - 1;
            let mut text = format!("{}.", whole);
            for _ in 0..bits {
                rest *= 10;
                text.push((b'0' + (rest >> bits) as u8) as char);
                rest &= (1u128 << bits) - 1;
            }
            let last = text.pop().unwrap();
            cases.push(format!("{}{}", text, last));
            cases.push(format!("{}{}0001", text, last));
            let less = (last as u8 - 1) as char;
            cases.push(format!("{}{}9999", text, less));
        }
    }
    for n in ["99999999999999999999999999", "-1", "-0.99", "-0", "0.5", "48000", "2", "00007"] {
        cases.push(n.to_string());
    }
    for text in cases {
        let n = extract_number(&format!("\"data\":{}", text)).unwrap();
        assert_eq!(n.to_u32(), text.parse::<f64>().unwrap() as u32, "{}", text);
    }
}

#[test]
fn count_examples() {
    let count = |text: &str| extract_number(&format!("\"data\":{}", text)).unwrap().to_u32();
    assert_eq!(count("44100"), 44100);
    assert_eq!(count("2.9"), 2);
    assert_eq!(count("-3"), 0);
    assert_eq!(count("4294967296"), 4294967295);
    assert_eq!(count("1.9999999999999999999"), 2);
    assert_eq!(count("0.99999999999999994"), 0);
    assert_eq!(count("0.99999999999999995"), 1);
}

#[test]
fn new_info_is_empty() {
    let info = StreamInfo::new();
    assert_eq!(info.audio_bitrate.as_str(), "0");
    assert_eq!(info.audio_codec, "");
    assert_eq!(info.cache_duration.as_str(), "0");
    assert!(info.stream_connected_at.is_none());
    assert_eq!(info.sample_rate, 0);
    assert_eq!(info.channels, 0);
}

#[test]
fn each_reply_goes_to_its_field() {
    let mut info = StreamInfo::new();
    parse_stream_info(&mut info, "{\"data\":128000,\"request_id\":200,\"error\":\"success\"}");
    parse_stream_info(&mut info, "{\"data\":9.75,\"request_id\": 201,\"error\":\"success\"}");
    parse_stream_info(&mut info, "{\"event\":\"property-change\",\"id\":2,\"data\":\"mp3\"}");
    parse_stream_info(&mut info, "{\"event\":\"property-change\",\"id\": 3,\"data\":44100}");
    parse_stream_info(&mut info, "{\"event\":\"property-change\",\"id\":4,\"data\":2}");
    assert_eq!(info.audio_bitrate.as_str(), "128000");
    assert_eq!(info.cache_duration.as_str(), "9.75");
    assert_eq!(info.audio_codec, "mp3");
    assert_eq!(info.sample_rate, 44100);
    assert_eq!(info.channels, 2);
}

#[test]
fn unrelated_lines_change_nothing() {
    let mut info = StreamInfo::new();
    parse_stream_info(&mut info, "{\"event\":\"property-change\",\"id\":4,\"data\":2}");
    for line in [
        "{\"event\":\"idle\"}",
        "{\"data\":5,\"request_id\":100}",
        "{\"event\":\"property-change\",\"id\":4,\"data\":null}",
        "{\"event\":\"property-change\",\"id\":1,\"data\":\"title\"}",
        "{\"request_id\":200,\"error\":\"property unavailable\"}",
        "",
    ] {
        parse_stream_info(&mut info, line);
    }
    assert_eq!(info.channels, 2);
    assert_eq!(info.audio_bitrate.as_str(), "0");
    assert_eq!(info.audio_codec, "");
    assert_eq!(info.sample_rate, 0);
}

#[test]
fn a_longer_number_that_starts_alike_is_another() {
    for line in [
        "{\"data\":7,\"request_id\":2000,\"error\":\"success\"}",
        "{\"data\":7,\"request_id\": 2010}",
        "{\"event\":\"property-change\",\"id\":20,\"name\":\"path\",\"data\":\"y\"}",
        "{\"id\":31,\"data\":7}",
        "{\"id\": 44,\"data\":7}",
    ] {
        let mut info = StreamInfo::new();
        parse_stream_info(&mut info, line);
        assert_eq!(info.audio_bitrate.as_str(), "0");
        assert_eq!(info.cache_duration.as_str(), "0");
        assert_eq!(info.audio_codec, "");
        assert_eq!(info.sample_rate, 0);
        assert_eq!(info.channels, 0);
    }
}

#[test]
fn a_longer_number_does_not_hide_the_right_one() {
    let mut info = StreamInfo::new();
    parse_stream_info(&mut info, "{\"id\":31,\"id\":3,\"data\":7}");
    assert_eq!(info.sample_rate, 7);
    parse_stream_info(&mut info, "\"data\":48000,\"id\":3");
    assert_eq!(info.sample_rate, 48000);
}

#[test]
fn reset_forgets_everything() {
    let mut info = StreamInfo::new();
    info.stream_connected_at = Some(Instant::now());
    parse_stream_info(&mut info, "{\"id\":2,\"data\":\"mp3\"}");
    parse_stream_info(&mut info, "{\"data\":1,\"request_id\":200}");
    info.reset();
    assert_eq!(info.audio_bitrate.as_str(), "0");
    assert_eq!(info.audio_codec, "");
    assert!(info.stream_connected_at.is_none());
}

#[test]
fn uptime_by_the_two_largest_units() {
    assert_eq!(format_uptime(0), "0s");
    assert_eq!(format_uptime(59), "59s");
    assert_eq!(format_uptime(60), "1m 0s");
    assert_eq!(format_uptime(3599), "59m 59s");
    assert_eq!(format_uptime(3600), "1h 0m");
    assert_eq!(format_uptime(7265), "2h 1m");
    assert_eq!(format_uptime(u64::MAX), "5124095576030431h 0m");
}

#[test]
fn uptime_of_a_stream() {
    let mut info = StreamInfo::new();
    assert_eq!(info.uptime_str(), "\u{2014}");
    info.stream_connected_at = Some(Instant::now());
    assert_eq!(info.uptime_str(), "0s");
    if let Some(before) = Instant::now().checked_sub(std::time::Duration::from_secs(125)) {
        info.stream_connected_at = Some(before);
        assert_eq!(info.uptime_str(), "2m 5s");
    }
}
