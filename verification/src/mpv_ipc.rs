//! Parsing for mpv's JSON IPC line protocol.
//!
//! This is pure string-in/data-out logic with no dependency on how the lines
//! arrived: over a Unix socket or off a named pipe.
use crate::numeral::{
    as_u32, digit, is_digit, is_numeral, law_decimal_is_unambiguous, law_whole_number_is_exact, lemma_decimal_value,
    lemma_numeral_chars, Numeral,
};
use crate::text::{
    contains, contains_text, decimal, find, find_chars, first_at, from_chars, is_white_space, lemma_find_is,
    matches_at, occurs_at, push_decimal, to_chars, trim_start, trim_start_chars,
};
use std::time::{Duration, Instant};
use vstd::prelude::*;
use vstd::slice::slice_subrange;
use vstd::string::*;

verus! {

/// `Instant` of std: a point in time on the monotonic clock. Nothing is known of
/// what it holds.
#[verifier::external_type_specification]
#[verifier::external_body]
pub struct ExInstant(Instant);

/// `Instant::elapsed` reads the clock: how long ago the instant was. Nothing
/// is known of the result.
pub assume_specification[ Instant::elapsed ](since: &Instant) -> Duration
;

/// `Duration::as_secs` gives the whole seconds of a duration. A duration being
/// opaque here, nothing is said of them.
pub assume_specification[ Duration::as_secs ](span: &Duration) -> u64
;

/// The key in front of the value that a reply carries.
pub open spec fn data_key() -> Seq<char> {
    "\"data\":"@
}

/// What stands behind the first data key of a line, white space skipped.
pub open spec fn data_field(line: Seq<char>) -> Option<Seq<char>> {
    match find(line, data_key()) {
        Some(i) => Some(trim_start(line.skip(i + data_key().len()))),
        None => None,
    }
}

/// `c` may be part of a number.
pub open spec fn is_number_char(c: char) -> bool {
    is_digit(c) || c == '.' || c == '-'
}

/// The longest start of `s` that is made of digits, points and minus signs.
pub open spec fn number_run(s: Seq<char>) -> Seq<char>
    decreases s.len(),
{
    if s.len() > 0 && is_number_char(s[0]) {
        seq![s[0]] + number_run(s.skip(1))
    } else {
        Seq::empty()
    }
}

/// The number that a line carries as its data.
pub open spec fn number(line: Seq<char>) -> Option<Seq<char>> {
    match data_field(line) {
        Some(field) => if is_numeral(number_run(field)) {
            Some(number_run(field))
        } else {
            None
        },
        None => None,
    }
}

/// The string that a line carries as its data, up to the next quotation mark.
pub open spec fn string_value(line: Seq<char>) -> Option<Seq<char>> {
    match data_field(line) {
        Some(field) => if field.len() > 0 && field[0] == '"' {
            match find(field.skip(1), seq!['"']) {
                Some(end) => Some(field.skip(1).take(end)),
                None => None,
            }
        } else {
            None
        },
        None => None,
    }
}

/// What an escaped character stands for. A line break becomes a space, so that
/// a title stays on one line.
pub open spec fn unescaped(c: char) -> char {
    if c == 'n' {
        ' '
    } else {
        c
    }
}

/// The text up to the closing quotation mark, with escapes resolved; none if
/// the mark is missing.
pub open spec fn unquoted(s: Seq<char>) -> Option<Seq<char>>
    decreases s.len(),
{
    if s.len() == 0 {
        None
    } else if s[0] == '"' {
        Some(Seq::empty())
    } else if s[0] == '\\' {
        if s.len() == 1 {
            None
        } else {
            match unquoted(s.skip(2)) {
                Some(rest) => Some(seq![unescaped(s[1])] + rest),
                None => None,
            }
        }
    } else {
        match unquoted(s.skip(1)) {
            Some(rest) => Some(seq![s[0]] + rest),
            None => None,
        }
    }
}

/// The title that a line about the property `media-title` carries.
pub open spec fn media_title(line: Seq<char>) -> Option<Seq<char>> {
    if !contains(line, "media-title"@) {
        None
    } else {
        match data_field(line) {
            Some(field) => if field.len() > 0 && field[0] == '"' {
                unquoted(field.skip(1))
            } else {
                None
            },
            None => None,
        }
    }
}

/// What stands behind the first data key, white space skipped.
fn find_data<'a>(line: &'a [char]) -> (field: Option<&'a [char]>)
    ensures
        match field {
            Some(field) => data_field(line@) == Some(field@),
            None => data_field(line@) is None,
        },
{
    let key = to_chars("\"data\":");
    let length = line.len();
    match find_chars(line, key.as_slice()) {
        Some(i) => {
            let after = slice_subrange(line, i + key.len(), length);
            assert(after@ == line@.skip(i + data_key().len()));
            Some(trim_start_chars(after))
        },
        None => None,
    }
}

/// The number that a line carries as its data.
pub fn extract_number(json: &str) -> (n: Option<Numeral>)
    ensures
        match n {
            Some(n) => number(json@) == Some(n@),
            None => number(json@) is None,
        },
{
    let line = to_chars(json);
    let field = match find_data(line.as_slice()) {
        Some(field) => field,
        None => {
            return None;
        },
    };
    let mut n: usize = 0;
    assert(field@.skip(0) == field@);
    assert(field@.take(0) + number_run(field@) == number_run(field@));
    while n < field.len() && (digit(field[n]) || field[n] == '.' || field[n] == '-')
        invariant
            n <= field@.len(),
            number_run(field@) == field@.take(n as int) + number_run(field@.skip(n as int)),
        decreases field.len() - n,
    {
        proof {
            let rest = field@.skip(n as int);
            assert(rest.skip(1) == field@.skip(n + 1));
            assert(field@.take(n as int) + (seq![rest[0]] + number_run(rest.skip(1)))
                == field@.take(n + 1) + number_run(field@.skip(n + 1)));
        }
        n += 1;
    }
    let run = slice_subrange(field, 0, n);
    assert(run@ == number_run(field@));
    Numeral::from_slice(run)
}

/// The string that a line carries as its data, up to the next quotation mark.
pub fn extract_string_value(json: &str) -> (value: Option<String>)
    ensures
        match value {
            Some(value) => string_value(json@) == Some(value@),
            None => string_value(json@) is None,
        },
{
    let line = to_chars(json);
    let field = match find_data(line.as_slice()) {
        Some(field) => field,
        None => {
            return None;
        },
    };
    if field.len() > 0 && field[0] == '"' {
        let rest = slice_subrange(field, 1, field.len());
        assert(rest@ == field@.skip(1));
        let mut mark: Vec<char> = Vec::new();
        mark.push('"');
        assert(mark@ == seq!['"']);
        match find_chars(rest, mark.as_slice()) {
            Some(end) => {
                let value = slice_subrange(rest, 0, end);
                assert(value@ == rest@.take(end as int));
                Some(from_chars(value))
            },
            None => None,
        }
    } else {
        None
    }
}

/// The title that a line about the property `media-title` carries, with its
/// escapes resolved.
pub fn extract_media_title(json_line: &str) -> (title: Option<String>)
    ensures
        match title {
            Some(title) => media_title(json_line@) == Some(title@),
            None => media_title(json_line@) is None,
        },
{
    let line = to_chars(json_line);
    if !contains_text(line.as_slice(), "media-title") {
        return None;
    }
    let field = match find_data(line.as_slice()) {
        Some(field) => field,
        None => {
            return None;
        },
    };
    if field.len() == 0 || field[0] != '"' {
        return None;
    }
    let rest = slice_subrange(field, 1, field.len());
    assert(rest@ == field@.skip(1));
    let mut title = String::new();
    let mut i: usize = 0;
    proof {
        assert(rest@.skip(0) == rest@);
        if let Some(t) = unquoted(rest@) {
            assert(title@ + t == t);
        }
    }
    while i < rest.len()
        invariant
            i <= rest@.len(),
            continues(media_title(json_line@), title@, unquoted(rest@.skip(i as int))),
        decreases rest.len() - i,
    {
        let c = rest[i];
        let ghost tail = rest@.skip(i as int);
        if c == '"' {
            assert(title@ + Seq::<char>::empty() == title@);
            return Some(title);
        }
        if c == '\\' {
            i += 1;
            if i < rest.len() {
                let escaped = rest[i];
                assert(tail.skip(2) == rest@.skip(i + 1));
                assert(title@ + (seq![unescaped(escaped)] + unquoted(tail.skip(2))->0)
                    == title@.push(unescaped(escaped)) + unquoted(tail.skip(2))->0);
                if escaped == 'n' {
                    title.push(' ');
                } else {
                    title.push(escaped);
                }
                i += 1;
            }
        } else {
            assert(tail.skip(1) == rest@.skip(i + 1));
            assert(title@ + (seq![c] + unquoted(tail.skip(1))->0) == title@.push(c) + unquoted(
                tail.skip(1),
            )->0);
            title.push(c);
            i += 1;
        }
    }
    None
}

/// `whole` is `done` followed by `rest`, where there is a rest.
spec fn continues(whole: Option<Seq<char>>, done: Seq<char>, rest: Option<Seq<char>>) -> bool {
    match rest {
        Some(rest) => whole == Some(done + rest),
        None => whole is None,
    }
}

/// What mpv has reported of the current stream.
pub struct StreamInfo {
    /// Actual audio bitrate in bits/sec from mpv (0 if unknown)
    pub audio_bitrate: Numeral,
    /// Audio codec name reported by mpv
    pub audio_codec: String,
    /// Demuxer cache duration in seconds (how much audio is buffered)
    pub cache_duration: Numeral,
    /// Since when the current stream has been connected
    pub stream_connected_at: Option<Instant>,
    /// Audio sample rate from mpv
    pub sample_rate: u32,
    /// Audio channel count
    pub channels: u32,
}

/// The contents of a [`StreamInfo`].
pub struct StreamInfoView {
    pub audio_bitrate: Seq<char>,
    pub audio_codec: Seq<char>,
    pub cache_duration: Seq<char>,
    pub stream_connected_at: Option<Instant>,
    pub sample_rate: u32,
    pub channels: u32,
}

impl View for StreamInfo {
    type V = StreamInfoView;

    open spec fn view(&self) -> StreamInfoView {
        StreamInfoView {
            audio_bitrate: self.audio_bitrate@,
            audio_codec: self.audio_codec@,
            cache_duration: self.cache_duration@,
            stream_connected_at: self.stream_connected_at,
            sample_rate: self.sample_rate,
            channels: self.channels,
        }
    }
}

impl StreamInfoView {
    /// Nothing is known of any stream.
    pub open spec fn unknown() -> StreamInfoView {
        StreamInfoView {
            audio_bitrate: "0"@,
            audio_codec: Seq::empty(),
            cache_duration: "0"@,
            stream_connected_at: None,
            sample_rate: 0,
            channels: 0,
        }
    }

    /// What is known once `line` has come in. Each field follows its own tag
    /// and the data of the line, and stays as it is otherwise.
    pub open spec fn after_line(self, line: Seq<char>) -> StreamInfoView {
        StreamInfoView {
            audio_bitrate: match number(line) {
                Some(n) if tagged_request(line, 200) => n,
                _ => self.audio_bitrate,
            },
            audio_codec: match string_value(line) {
                Some(name) if tagged_property(line, 2) => name,
                _ => self.audio_codec,
            },
            cache_duration: match number(line) {
                Some(n) if tagged_request(line, 201) => n,
                _ => self.cache_duration,
            },
            stream_connected_at: self.stream_connected_at,
            sample_rate: match number(line) {
                Some(n) if tagged_property(line, 3) => as_u32(n),
                _ => self.sample_rate,
            },
            channels: match number(line) {
                Some(n) if tagged_property(line, 4) => as_u32(n),
                _ => self.channels,
            },
        }
    }
}

/// `tag` stands in `line`, and the number that it ends with goes no further.
pub open spec fn has_number_tag(line: Seq<char>, tag: Seq<char>) -> bool {
    exists|i: int|
        #[trigger] occurs_at(line, tag, i) && (i + tag.len() == line.len() || !is_digit(
            line[i + tag.len()],
        ))
}

/// `key` stands in `line`, followed by a colon and exactly the number `n`, with
/// or without a space between the two.
pub open spec fn tagged(line: Seq<char>, key: Seq<char>, n: nat) -> bool {
    ||| has_number_tag(line, key + ":"@ + decimal(n))
    ||| has_number_tag(line, key + ": "@ + decimal(n))
}

/// The line replies to the request with the number `n`.
pub open spec fn tagged_request(line: Seq<char>, n: nat) -> bool {
    tagged(line, "\"request_id\""@, n)
}

/// The line reports the observed property with the number `n`.
pub open spec fn tagged_property(line: Seq<char>, n: nat) -> bool {
    tagged(line, "\"id\""@, n)
}

/// Whether `tag` stands in `line` with no further digit behind it.
fn find_number_tag(line: &[char], tag: &str) -> (found: bool)
    ensures
        found == has_number_tag(line@, tag@),
{
    let wanted = to_chars(tag);
    let length: usize = line.len();
    if wanted.len() > length {
        return false;
    }
    let last: usize = length - wanted.len();
    let mut i: usize = 0;
    loop
        invariant
            wanted@ == tag@,
            length == line@.len(),
            last == length - tag@.len(),
            i <= last,
            forall|j: int|
                0 <= j < i && #[trigger] occurs_at(line@, tag@, j) ==> j + tag@.len() < line@.len()
                    && is_digit(line@[j + tag@.len()]),
        decreases last - i,
    {
        if matches_at(line, wanted.as_slice(), i) && (i == last || !digit(line[i + wanted.len()])) {
            return true;
        }
        if i == last {
            return false;
        }
        i += 1;
    }
}

/// Whether `key` stands in `line` with the number `n` behind it.
fn has_tag(line: &[char], key: &str, n: u64) -> (found: bool)
    ensures
        found == tagged(line@, key@, n as nat),
{
    let mut compact = key.to_owned();
    compact.append(":");
    push_decimal(&mut compact, n);
    let mut spaced = key.to_owned();
    spaced.append(": ");
    push_decimal(&mut spaced, n);
    find_number_tag(line, compact.as_str()) || find_number_tag(line, spaced.as_str())
}

/// Update `info` from one line of mpv IPC JSON, if it's a reply this module
/// recognizes (request_id 200/201, or observe_property ids 2-4).
pub fn parse_stream_info(info: &mut StreamInfo, text: &str)
    ensures
        final(info)@ == old(info)@.after_line(text@),
{
    let line = to_chars(text);
    if has_tag(line.as_slice(), "\"request_id\"", 200) {
        if let Some(val) = extract_number(text) {
            info.audio_bitrate = val;
        }
    }
    if has_tag(line.as_slice(), "\"request_id\"", 201) {
        if let Some(val) = extract_number(text) {
            info.cache_duration = val;
        }
    }
    if has_tag(line.as_slice(), "\"id\"", 2) {
        if let Some(val) = extract_string_value(text) {
            info.audio_codec = val;
        }
    }
    if has_tag(line.as_slice(), "\"id\"", 3) {
        if let Some(val) = extract_number(text) {
            info.sample_rate = val.to_u32();
        }
    }
    if has_tag(line.as_slice(), "\"id\"", 4) {
        if let Some(val) = extract_number(text) {
            info.channels = val.to_u32();
        }
    }
}

/// A length of time, by its two largest units: hours and minutes, minutes and
/// seconds, or seconds alone.
pub open spec fn uptime_text(secs: nat) -> Seq<char> {
    if secs >= 3600 {
        decimal(secs / 3600) + "h "@ + decimal((secs % 3600) / 60) + "m"@
    } else if secs >= 60 {
        decimal(secs / 60) + "m "@ + decimal(secs % 60) + "s"@
    } else {
        decimal(secs) + "s"@
    }
}

/// A length of time in seconds, by its two largest units.
pub fn format_uptime(secs: u64) -> (text: String)
    ensures
        text@ == uptime_text(secs as nat),
{
    let mut text = String::new();
    if secs >= 3600 {
        push_decimal(&mut text, secs / 3600);
        text.append("h ");
        push_decimal(&mut text, (secs % 3600) / 60);
        text.append("m");
    } else if secs >= 60 {
        push_decimal(&mut text, secs / 60);
        text.append("m ");
        push_decimal(&mut text, secs % 60);
        text.append("s");
    } else {
        push_decimal(&mut text, secs);
        text.append("s");
    }
    assert(text@ =~= uptime_text(secs as nat));
    text
}

impl StreamInfo {
    /// Nothing known yet.
    pub fn new() -> (info: StreamInfo)
        ensures
            info@ == StreamInfoView::unknown(),
    {
        StreamInfo {
            audio_bitrate: Numeral::zero(),
            audio_codec: String::new(),
            cache_duration: Numeral::zero(),
            stream_connected_at: None,
            sample_rate: 0,
            channels: 0,
        }
    }

    /// Forget everything.
    pub fn reset(&mut self)
        ensures
            final(self)@ == StreamInfoView::unknown(),
    {
        *self = StreamInfo::new();
    }

    /// How long the stream has been connected, by the clock, or a dash.
    pub fn uptime_str(&self) -> (text: String)
        ensures
            match self.stream_connected_at {
                Some(t) => exists|span: Duration, secs: u64|
                    #![trigger call_ensures(Duration::as_secs, (&span,), secs)]
                    call_ensures(Instant::elapsed, (&t,), span) && call_ensures(
                        Duration::as_secs,
                        (&span,),
                        secs,
                    ) && text@ == uptime_text(secs as nat),
                None => text@ == "\u{2014}"@,
            },
    {
        match &self.stream_connected_at {
            Some(t) => {
                let span: Duration = t.elapsed();
                let secs: u64 = span.as_secs();
                assert(call_ensures(Instant::elapsed, (t,), span));
                assert(call_ensures(Duration::as_secs, (&span,), secs));
                format_uptime(secs)
            },
            None => "\u{2014}".to_owned(),
        }
    }
}

/// `title` as it is written inside quotation marks.
pub open spec fn json_escaped(title: Seq<char>) -> Seq<char>
    decreases title.len(),
{
    if title.len() == 0 {
        Seq::empty()
    } else if title[0] == '"' || title[0] == '\\' {
        seq!['\\', title[0]] + json_escaped(title.skip(1))
    } else {
        seq![title[0]] + json_escaped(title.skip(1))
    }
}

/// The line has its first data key behind `head`, and `field` behind that key
/// and some white space.
pub open spec fn carries(line: Seq<char>, head: Seq<char>, gap: Seq<char>, field: Seq<char>) -> bool {
    &&& line == head + "\"data\":"@ + gap + field
    &&& first_at(line, "\"data\":"@, head.len() as int)
    &&& forall|i: int| 0 <= i < gap.len() ==> is_white_space(#[trigger] gap[i])
    &&& field.len() > 0 && !is_white_space(field[0])
}

proof fn lemma_trim_gap(gap: Seq<char>, field: Seq<char>)
    requires
        forall|i: int| 0 <= i < gap.len() ==> is_white_space(#[trigger] gap[i]),
        field.len() > 0 && !is_white_space(field[0]),
    ensures
        trim_start(gap + field) == field,
    decreases gap.len(),
{
    if gap.len() == 0 {
        assert(gap + field == field);
    } else {
        assert(is_white_space(gap[0]));
        assert((gap + field).skip(1) == gap.skip(1) + field);
        assert forall|i: int| 0 <= i < gap.skip(1).len() implies is_white_space(
            #[trigger] gap.skip(1)[i],
        ) by {
            assert(gap.skip(1)[i] == gap[i + 1]);
        }
        lemma_trim_gap(gap.skip(1), field);
    }
}

pub(crate) proof fn lemma_data_field(line: Seq<char>, head: Seq<char>, gap: Seq<char>, field: Seq<char>)
    requires
        carries(line, head, gap, field),
    ensures
        data_field(line) == Some(field),
{
    lemma_find_is(line, data_key(), head.len() as int);
    assert(line.skip(head.len() as int + data_key().len()) == gap + field);
    lemma_trim_gap(gap, field);
}

proof fn lemma_unquoted_escaped(title: Seq<char>, rest: Seq<char>)
    ensures
        unquoted(json_escaped(title) + seq!['"'] + rest) == Some(title),
    decreases title.len(),
{
    let s = json_escaped(title) + seq!['"'] + rest;
    if title.len() == 0 {
        assert(s[0] == '"');
        assert(title == Seq::<char>::empty());
    } else {
        let tail = json_escaped(title.skip(1)) + seq!['"'] + rest;
        lemma_unquoted_escaped(title.skip(1), rest);
        assert(seq![title[0]] + title.skip(1) == title);
        if title[0] == '"' || title[0] == '\\' {
            assert(s[0] == '\\' && s[1] == title[0]);
            assert(s.skip(2) == tail);
        } else {
            assert(s[0] == title[0]);
            assert(s.skip(1) == tail);
        }
    }
}

/// A title that mpv reports is read back as it is, whatever quotation marks
/// and backslashes it holds.
pub proof fn law_title_is_read_back(
    line: Seq<char>,
    head: Seq<char>,
    gap: Seq<char>,
    title: Seq<char>,
    rest: Seq<char>,
)
    requires
        carries(line, head, gap, seq!['"'] + json_escaped(title) + seq!['"'] + rest),
        contains(line, "media-title"@),
    ensures
        media_title(line) == Some(title),
{
    let field = seq!['"'] + json_escaped(title) + seq!['"'] + rest;
    lemma_data_field(line, head, gap, field);
    assert(field.skip(1) == json_escaped(title) + seq!['"'] + rest);
    lemma_unquoted_escaped(title, rest);
}

/// A string that mpv reports is read back as it is, if it holds no quotation
/// mark.
pub proof fn law_string_is_read_back(
    line: Seq<char>,
    head: Seq<char>,
    gap: Seq<char>,
    value: Seq<char>,
    rest: Seq<char>,
)
    requires
        carries(line, head, gap, seq!['"'] + value + seq!['"'] + rest),
        !value.contains('"'),
    ensures
        string_value(line) == Some(value),
{
    let field = seq!['"'] + value + seq!['"'] + rest;
    lemma_data_field(line, head, gap, field);
    let inner = field.skip(1);
    let mark = seq!['"'];
    let end = value.len() as int;
    assert(inner.subrange(end, end + 1) == mark);
    assert forall|j: int| 0 <= j < end implies !occurs_at(inner, mark, j) by {
        if occurs_at(inner, mark, j) {
            assert(inner.subrange(j, j + 1)[0] == '"');
            assert(value[j] == '"');
        }
    }
    lemma_find_is(inner, mark, end);
    assert(inner.take(end) == value);
}

pub(crate) proof fn lemma_number_run(digits: Seq<char>, rest: Seq<char>)
    requires
        forall|i: int| 0 <= i < digits.len() ==> is_number_char(#[trigger] digits[i]),
        rest.len() > 0 ==> !is_number_char(rest[0]),
    ensures
        number_run(digits + rest) == digits,
    decreases digits.len(),
{
    let s = digits + rest;
    if digits.len() == 0 {
        assert(s == rest);
        assert(digits == Seq::<char>::empty());
    } else {
        assert(is_number_char(digits[0]));
        assert forall|i: int| 0 <= i < digits.skip(1).len() implies is_number_char(
            #[trigger] digits.skip(1)[i],
        ) by {
            assert(digits.skip(1)[i] == digits[i + 1]);
        }
        assert(s.skip(1) == digits.skip(1) + rest);
        lemma_number_run(digits.skip(1), rest);
        assert(seq![digits[0]] + digits.skip(1) == digits);
    }
}

/// A number that mpv reports is kept digit for digit, as the bitrate or as the
/// length of the cache.
pub proof fn law_number_is_read_back(
    info: StreamInfoView,
    line: Seq<char>,
    head: Seq<char>,
    gap: Seq<char>,
    n: Seq<char>,
    rest: Seq<char>,
)
    requires
        is_numeral(n),
        carries(line, head, gap, n + rest),
        rest.len() > 0 ==> !is_number_char(rest[0]),
    ensures
        number(line) == Some(n),
        tagged_request(line, 200) ==> info.after_line(line).audio_bitrate == n,
        tagged_request(line, 201) ==> info.after_line(line).cache_duration == n,
{
    lemma_data_field(line, head, gap, n + rest);
    lemma_numeral_chars(n);
    lemma_number_run(n, rest);
}

/// A whole number that mpv reports for the sample rate or the channel count is
/// the one that ends up there.
pub proof fn law_count_is_read_back(
    info: StreamInfoView,
    line: Seq<char>,
    head: Seq<char>,
    gap: Seq<char>,
    n: u32,
    rest: Seq<char>,
)
    requires
        carries(line, head, gap, decimal(n as nat) + rest),
        rest.len() > 0 ==> !is_number_char(rest[0]),
    ensures
        tagged_property(line, 3) ==> info.after_line(line).sample_rate == n,
        tagged_property(line, 4) ==> info.after_line(line).channels == n,
{
    law_whole_number_is_exact(n);
    law_number_is_read_back(info, line, head, gap, decimal(n as nat), rest);
}

/// A line in which a key stands once, with a number behind it, is tagged with
/// that number and with no other: one that merely starts alike is a different
/// number.
pub proof fn law_a_tag_names_one_number(
    line: Seq<char>,
    head: Seq<char>,
    key: Seq<char>,
    colon: Seq<char>,
    m: nat,
    rest: Seq<char>,
    n: nat,
)
    requires
        line == head + key + colon + decimal(m) + rest,
        colon == ":"@ || colon == ": "@,
        rest.len() > 0 ==> !is_digit(rest[0]),
        forall|i: int| #[trigger] occurs_at(line, key, i) ==> i == head.len(),
    ensures
        tagged(line, key, n) <==> n == m,
{
    reveal_strlit(":");
    reveal_strlit(": ");
    let tag = key + colon + decimal(m);
    let at = head.len() as int;
    lemma_decimal_value(m);
    assert(line.subrange(at, at + tag.len()) =~= tag);
    assert(occurs_at(line, tag, at));
    assert(has_number_tag(line, tag)) by {
        if at + tag.len() < line.len() {
            assert(line[at + tag.len()] == rest[0]);
        }
    }
    if has_number_tag(line, key + ":"@ + decimal(n)) {
        lemma_tag_number(line, head, key, colon, m, rest, n, ":"@);
    }
    if has_number_tag(line, key + ": "@ + decimal(n)) {
        lemma_tag_number(line, head, key, colon, m, rest, n, ": "@);
    }
}

proof fn lemma_tag_number(
    line: Seq<char>,
    head: Seq<char>,
    key: Seq<char>,
    colon: Seq<char>,
    m: nat,
    rest: Seq<char>,
    n: nat,
    sep: Seq<char>,
)
    requires
        line == head + key + colon + decimal(m) + rest,
        colon == ":"@ || colon == ": "@,
        sep == ":"@ || sep == ": "@,
        rest.len() > 0 ==> !is_digit(rest[0]),
        forall|i: int| #[trigger] occurs_at(line, key, i) ==> i == head.len(),
        has_number_tag(line, key + sep + decimal(n)),
    ensures
        n == m,
{
    reveal_strlit(":");
    reveal_strlit(": ");
    let tag = key + sep + decimal(n);
    let i = choose|i: int|
        #[trigger] occurs_at(line, tag, i) && (i + tag.len() == line.len() || !is_digit(
            line[i + tag.len()],
        ));
    let piece = line.subrange(i, i + tag.len());
    assert(line.subrange(i, i + key.len()) =~= key) by {
        assert forall|k: int| 0 <= k < key.len() implies line[i + k] == key[k] by {
            assert(piece[k] == tag[k]);
        }
    }
    assert(occurs_at(line, key, i));
    let start = i + key.len();
    lemma_decimal_value(m);
    lemma_decimal_value(n);
    assert(is_digit(decimal(m)[0]) && is_digit(decimal(n)[0]));
    assert(piece[key.len() as int + 1] == tag[key.len() as int + 1]);
    assert(sep.len() == colon.len());
    let from = start + colon.len();
    let (a, b) = (decimal(m), decimal(n));
    assert forall|k: int| 0 <= k < b.len() implies line[from + k] == b[k] by {
        assert(piece[key.len() + sep.len() + k] == tag[key.len() + sep.len() + k]);
    }
    assert forall|k: int| 0 <= k < a.len() implies line[from + k] == a[k] by {}
    if b.len() < a.len() {
        assert(is_digit(a[b.len() as int]));
        assert(line[from + b.len()] == a[b.len() as int]);
    } else if b.len() > a.len() {
        assert(is_digit(b[a.len() as int]));
        assert(line[from + a.len()] == rest[0]);
    }
    assert(a =~= b);
    law_decimal_is_unambiguous(m, n);
}

/// A line that carries no data changes nothing, and neither does one that has
/// none of the known tags.
pub proof fn law_unrelated_line_changes_nothing(info: StreamInfoView, line: Seq<char>)
    requires
        data_field(line) is None || !(tagged_request(line, 200) || tagged_request(line, 201)
            || tagged_property(line, 2) || tagged_property(line, 3) || tagged_property(line, 4)),
    ensures
        info.after_line(line) == info,
{
}

} // verus!
