//! What holds of the lines that mpv sends, from what is on a line to what is
//! made of it.
use crate::mpv_ipc::{
    carries, data_field, data_key, extract_media_title, extract_number, extract_string_value, format_uptime,
    has_number_tag, is_number_char, law_a_tag_names_one_number, law_string_is_read_back, lemma_data_field,
    lemma_number_run, number_run, parse_stream_info, unquoted, uptime_text, StreamInfo,
};
use crate::numeral::{as_u32, is_digit, is_numeral, law_whole_number_is_exact, lemma_numeral_chars, Numeral};
use crate::text::{
    contains, decimal, find, first_at, is_white_space, law_the_leftmost_place_is_found, law_the_start_is_trimmed,
    lemma_find_is, occurs_at, trim_start,
};
use std::time::{Duration, Instant};
use vstd::prelude::*;
use vstd::string::*;

verus! {

/// A character of a string as it is written: as it is, or behind a backslash.
pub struct Written {
    pub escaped: bool,
    pub c: char,
}

/// A string as it is written: neither a quotation mark nor a backslash stands
/// in it but behind a backslash.
pub open spec fn well_written(string: Seq<Written>) -> bool {
    forall|i: int|
        0 <= i < string.len() && !(#[trigger] string[i]).escaped ==> string[i].c != '"' && string[i].c != '\\'
}

/// The characters on the line.
pub open spec fn spelled(string: Seq<Written>) -> Seq<char>
    decreases string.len(),
{
    if string.len() == 0 {
        Seq::empty()
    } else if string[0].escaped {
        seq!['\\', string[0].c] + spelled(string.skip(1))
    } else {
        seq![string[0].c] + spelled(string.skip(1))
    }
}

/// The characters that are meant: a line break becomes a space, and anything
/// else stands for itself.
pub open spec fn meant(string: Seq<Written>) -> Seq<char> {
    string.map_values(
        |w: Written|
            if w.escaped && w.c == 'n' {
                ' '
            } else {
                w.c
            },
    )
}

/// The line carries no data, or nothing but white space behind the first data
/// key.
pub open spec fn carries_nothing(line: Seq<char>) -> bool {
    ||| !contains(line, "\"data\":"@)
    ||| exists|head: Seq<char>, gap: Seq<char>| #[trigger] carries_only_a_gap(line, head, gap)
}

/// The line ends with white space behind its first data key.
pub open spec fn carries_only_a_gap(line: Seq<char>, head: Seq<char>, gap: Seq<char>) -> bool {
    &&& line == head + "\"data\":"@ + gap
    &&& first_at(line, "\"data\":"@, head.len() as int)
    &&& forall|i: int| 0 <= i < gap.len() ==> is_white_space(#[trigger] gap[i])
}

proof fn lemma_carries_nothing(line: Seq<char>)
    requires
        carries_nothing(line),
    ensures
        data_field(line) is None || data_field(line) == Some(Seq::<char>::empty()),
{
    law_the_leftmost_place_is_found(line, "\"data\":"@);
    if contains(line, "\"data\":"@) {
        let (head, gap) = choose|head: Seq<char>, gap: Seq<char>| #[trigger] carries_only_a_gap(line, head, gap);
        lemma_find_is(line, "\"data\":"@, head.len() as int);
        assert(line.skip(head.len() as int + data_key().len()) =~= gap);
        law_the_start_is_trimmed(gap);
        let trimmed = trim_start(gap);
        if trimmed.len() > 0 {
            assert(trimmed[0] == gap[gap.len() - trimmed.len()]);
        }
        assert(trimmed =~= Seq::<char>::empty());
    }
}

proof fn lemma_spelled(string: Seq<Written>, rest: Seq<char>)
    requires
        well_written(string),
    ensures
        match unquoted(rest) {
            Some(after) => unquoted(spelled(string) + rest) == Some(meant(string) + after),
            None => unquoted(spelled(string) + rest) is None,
        },
    decreases string.len(),
{
    let s = spelled(string) + rest;
    if string.len() == 0 {
        assert(s =~= rest);
        assert(meant(string) =~= Seq::<char>::empty());
        if let Some(after) = unquoted(rest) {
            assert(meant(string) + after =~= after);
        }
    } else {
        let tail = string.skip(1);
        assert forall|i: int| 0 <= i < tail.len() && !(#[trigger] tail[i]).escaped implies tail[i].c != '"' && tail[i].c
            != '\\' by {
            assert(tail[i] == string[i + 1]);
        }
        lemma_spelled(tail, rest);
        let after = spelled(tail) + rest;
        if string[0].escaped {
            assert(s[0] == '\\' && s[1] == string[0].c);
            assert(s.skip(2) =~= after);
        } else {
            assert(s[0] == string[0].c);
            assert(s.skip(1) =~= after);
        }
        assert(meant(string) =~= seq![meant(string)[0]] + meant(tail));
        if let Some(end) = unquoted(rest) {
            assert(seq![meant(string)[0]] + (meant(tail) + end) =~= meant(string) + end);
        }
    }
}

/// A line that does not contain `media-title` yields no title, whatever else is
/// on it.
pub proof fn law_no_title_without_the_property(line: &str, title: Option<String>)
    requires
        call_ensures(extract_media_title, (line,), title),
        !contains(line@, "media-title"@),
    ensures
        title is None,
{
}

/// On a line about `media-title` the string behind the first data key is the
/// title, up to its closing quotation mark, each escape resolved.
pub proof fn law_the_title_is_what_is_meant(
    line: &str,
    title: Option<String>,
    head: Seq<char>,
    gap: Seq<char>,
    string: Seq<Written>,
    rest: Seq<char>,
)
    requires
        call_ensures(extract_media_title, (line,), title),
        contains(line@, "media-title"@),
        carries(line@, head, gap, seq!['"'] + spelled(string) + seq!['"'] + rest),
        well_written(string),
    ensures
        title matches Some(title) && title@ == meant(string),
{
    let field = seq!['"'] + spelled(string) + seq!['"'] + rest;
    let end = seq!['"'] + rest;
    lemma_data_field(line@, head, gap, field);
    assert(field.skip(1) =~= spelled(string) + end);
    assert(end[0] == '"');
    lemma_spelled(string, end);
    assert(meant(string) + Seq::<char>::empty() =~= meant(string));
}

/// A string without its closing quotation mark is no title, and neither is
/// anything but a string.
pub proof fn law_no_title_without_a_closed_string(
    line: &str,
    title: Option<String>,
    head: Seq<char>,
    gap: Seq<char>,
    field: Seq<char>,
    string: Seq<Written>,
)
    requires
        call_ensures(extract_media_title, (line,), title),
        carries(line@, head, gap, field),
        well_written(string),
        field[0] != '"' || field == seq!['"'] + spelled(string) || field == seq!['"'] + spelled(string) + seq!['\\'],
    ensures
        title is None,
{
    lemma_data_field(line@, head, gap, field);
    if field[0] == '"' {
        let none = Seq::<char>::empty();
        assert(unquoted(none) is None);
        assert(unquoted(seq!['\\']) is None);
        lemma_spelled(string, none);
        lemma_spelled(string, seq!['\\']);
        if field == seq!['"'] + spelled(string) {
            assert(field.skip(1) =~= spelled(string) + none);
        } else {
            assert(field.skip(1) =~= spelled(string) + seq!['\\']);
        }
    }
}

/// A line without data yields neither a title, nor a string, nor a number.
pub proof fn law_nothing_without_data(
    line: &str,
    title: Option<String>,
    value: Option<String>,
    n: Option<Numeral>,
)
    requires
        carries_nothing(line@),
        call_ensures(extract_media_title, (line,), title),
        call_ensures(extract_string_value, (line,), value),
        call_ensures(extract_number, (line,), n),
    ensures
        title is None,
        value is None,
        n is None,
{
    lemma_carries_nothing(line@);
    let empty = Seq::<char>::empty();
    assert(number_run(empty) =~= empty);
    assert(!is_numeral(empty)) by {
        if is_numeral(empty) {
            crate::numeral::law_what_a_numeral_is(empty, ""@, empty, empty);
            reveal_strlit("");
            assert(empty =~= ""@ + empty);
        }
    }
}

/// The string behind the first data key goes up to the next quotation mark; it
/// is taken as it stands.
pub proof fn law_the_string_goes_up_to_the_mark(
    line: &str,
    value: Option<String>,
    head: Seq<char>,
    gap: Seq<char>,
    string: Seq<char>,
    rest: Seq<char>,
)
    requires
        call_ensures(extract_string_value, (line,), value),
        carries(line@, head, gap, seq!['"'] + string + seq!['"'] + rest),
        !string.contains('"'),
    ensures
        value matches Some(value) && value@ == string,
{
    law_string_is_read_back(line@, head, gap, string, rest);
}

/// A string without its closing quotation mark is no string value, and neither
/// is anything but a string.
pub proof fn law_no_string_without_a_closing_mark(
    line: &str,
    value: Option<String>,
    head: Seq<char>,
    gap: Seq<char>,
    field: Seq<char>,
)
    requires
        call_ensures(extract_string_value, (line,), value),
        carries(line@, head, gap, field),
        field[0] != '"' || !field.skip(1).contains('"'),
    ensures
        value is None,
{
    lemma_data_field(line@, head, gap, field);
    let mark = seq!['"'];
    let inner = field.skip(1);
    law_the_leftmost_place_is_found(inner, mark);
    if let Some(i) = find(inner, mark) {
        assert(inner[i] == '"');
    }
}

/// The number behind the first data key is all that stands there in digits,
/// points and minus signs, as it is written; it is there if that is a numeral.
pub proof fn law_the_number_is_the_numeral(
    line: &str,
    n: Option<Numeral>,
    head: Seq<char>,
    gap: Seq<char>,
    run: Seq<char>,
    rest: Seq<char>,
)
    requires
        call_ensures(extract_number, (line,), n),
        carries(line@, head, gap, run + rest),
        forall|i: int|
            0 <= i < run.len() ==> '0' <= #[trigger] run[i] <= '9' || run[i] == '.' || run[i] == '-',
        rest.len() > 0 ==> !('0' <= rest[0] <= '9') && rest[0] != '.' && rest[0] != '-',
    ensures
        n is Some <==> is_numeral(run),
        n matches Some(n) ==> n@ == run,
{
    lemma_data_field(line@, head, gap, run + rest);
    assert forall|i: int| 0 <= i < run.len() implies is_number_char(#[trigger] run[i]) by {
        assert('0' <= run[i] <= '9' || run[i] == '.' || run[i] == '-');
    }
    lemma_number_run(run, rest);
}

/// `tag` stands between `before` and `after`, and no digit follows it.
pub open spec fn stands(line: Seq<char>, before: Seq<char>, tag: Seq<char>, after: Seq<char>) -> bool {
    &&& line == before + tag + after
    &&& after.len() > 0 ==> !('0' <= after[0] <= '9')
}

proof fn lemma_tag_stands(line: Seq<char>, before: Seq<char>, tag: Seq<char>, after: Seq<char>)
    requires
        stands(line, before, tag, after),
    ensures
        has_number_tag(line, tag),
{
    let at = before.len() as int;
    assert(line.subrange(at, at + tag.len()) =~= tag);
    assert(occurs_at(line, tag, at));
    if at + tag.len() < line.len() {
        assert(line[at + tag.len()] == after[0]);
    }
}

proof fn lemma_tags()
    ensures
        "\"request_id\""@ + ":"@ + decimal(200) == "\"request_id\":200"@,
        "\"request_id\""@ + ": "@ + decimal(200) == "\"request_id\": 200"@,
        "\"request_id\""@ + ":"@ + decimal(201) == "\"request_id\":201"@,
        "\"request_id\""@ + ": "@ + decimal(201) == "\"request_id\": 201"@,
        "\"id\""@ + ":"@ + decimal(2) == "\"id\":2"@,
        "\"id\""@ + ": "@ + decimal(2) == "\"id\": 2"@,
        "\"id\""@ + ":"@ + decimal(3) == "\"id\":3"@,
        "\"id\""@ + ": "@ + decimal(3) == "\"id\": 3"@,
        "\"id\""@ + ":"@ + decimal(4) == "\"id\":4"@,
        "\"id\""@ + ": "@ + decimal(4) == "\"id\": 4"@,
{
    reveal_with_fuel(decimal, 4);
    reveal_strlit(":");
    reveal_strlit(": ");
    reveal_strlit("\"request_id\"");
    reveal_strlit("\"id\"");
    reveal_strlit("\"request_id\":200");
    reveal_strlit("\"request_id\": 200");
    reveal_strlit("\"request_id\":201");
    reveal_strlit("\"request_id\": 201");
    reveal_strlit("\"id\":2");
    reveal_strlit("\"id\": 2");
    reveal_strlit("\"id\":3");
    reveal_strlit("\"id\": 3");
    reveal_strlit("\"id\":4");
    reveal_strlit("\"id\": 4");
    assert(decimal(200) =~= seq!['2', '0', '0']);
    assert(decimal(201) =~= seq!['2', '0', '1']);
    assert(decimal(2) =~= seq!['2']);
    assert(decimal(3) =~= seq!['3']);
    assert(decimal(4) =~= seq!['4']);
    assert("\"request_id\""@ + ":"@ + decimal(200) =~= "\"request_id\":200"@);
    assert("\"request_id\""@ + ": "@ + decimal(200) =~= "\"request_id\": 200"@);
    assert("\"request_id\""@ + ":"@ + decimal(201) =~= "\"request_id\":201"@);
    assert("\"request_id\""@ + ": "@ + decimal(201) =~= "\"request_id\": 201"@);
    assert("\"id\""@ + ":"@ + decimal(2) =~= "\"id\":2"@);
    assert("\"id\""@ + ": "@ + decimal(2) =~= "\"id\": 2"@);
    assert("\"id\""@ + ":"@ + decimal(3) =~= "\"id\":3"@);
    assert("\"id\""@ + ": "@ + decimal(3) =~= "\"id\": 3"@);
    assert("\"id\""@ + ":"@ + decimal(4) =~= "\"id\":4"@);
    assert("\"id\""@ + ": "@ + decimal(4) =~= "\"id\": 4"@);
}

/// A number that mpv reports ends up in the field that its tag names: the
/// bitrate for request 200 and the length of the cache for request 201, kept as
/// written; the sample rate for property 3 and the number of channels for
/// property 4, as counts.
pub proof fn law_a_tagged_number_is_taken_in(
    info: &mut StreamInfo,
    text: &str,
    before: Seq<char>,
    tag: Seq<char>,
    after: Seq<char>,
    head: Seq<char>,
    gap: Seq<char>,
    n: Seq<char>,
    rest: Seq<char>,
)
    requires
        call_ensures(parse_stream_info, (info, text), ()),
        stands(text@, before, tag, after),
        carries(text@, head, gap, n + rest),
        is_numeral(n),
        rest.len() > 0 ==> !('0' <= rest[0] <= '9') && rest[0] != '.' && rest[0] != '-',
    ensures
        tag == "\"request_id\":200"@ || tag == "\"request_id\": 200"@ ==> final(info).audio_bitrate@ == n,
        tag == "\"request_id\":201"@ || tag == "\"request_id\": 201"@ ==> final(info).cache_duration@ == n,
        tag == "\"id\":3"@ || tag == "\"id\": 3"@ ==> final(info).sample_rate == as_u32(n),
        tag == "\"id\":4"@ || tag == "\"id\": 4"@ ==> final(info).channels == as_u32(n),
{
    lemma_tags();
    lemma_tag_stands(text@, before, tag, after);
    lemma_data_field(text@, head, gap, n + rest);
    lemma_numeral_chars(n);
    lemma_number_run(n, rest);
}

/// A whole number that mpv reports as the sample rate or as the number of
/// channels is the one that ends up there.
pub proof fn law_a_tagged_count_is_taken_in(
    info: &mut StreamInfo,
    text: &str,
    before: Seq<char>,
    tag: Seq<char>,
    after: Seq<char>,
    head: Seq<char>,
    gap: Seq<char>,
    n: u32,
    rest: Seq<char>,
)
    requires
        call_ensures(parse_stream_info, (info, text), ()),
        stands(text@, before, tag, after),
        carries(text@, head, gap, decimal(n as nat) + rest),
        rest.len() > 0 ==> !('0' <= rest[0] <= '9') && rest[0] != '.' && rest[0] != '-',
    ensures
        tag == "\"id\":3"@ || tag == "\"id\": 3"@ ==> final(info).sample_rate == n,
        tag == "\"id\":4"@ || tag == "\"id\": 4"@ ==> final(info).channels == n,
{
    law_whole_number_is_exact(n);
    law_a_tagged_number_is_taken_in(info, text, before, tag, after, head, gap, decimal(n as nat), rest);
}

/// The string that mpv reports for property 2, up to the next quotation mark,
/// is the name of the codec, whole and as it stands.
pub proof fn law_a_tagged_string_is_the_codec(
    info: &mut StreamInfo,
    text: &str,
    before: Seq<char>,
    tag: Seq<char>,
    after: Seq<char>,
    head: Seq<char>,
    gap: Seq<char>,
    value: Seq<char>,
    rest: Seq<char>,
)
    requires
        call_ensures(parse_stream_info, (info, text), ()),
        stands(text@, before, tag, after),
        tag == "\"id\":2"@ || tag == "\"id\": 2"@,
        carries(text@, head, gap, seq!['"'] + value + seq!['"'] + rest),
        !value.contains('"'),
    ensures
        final(info).audio_codec@ == value,
{
    lemma_tags();
    lemma_tag_stands(text@, before, tag, after);
    law_string_is_read_back(text@, head, gap, value, rest);
}

proof fn lemma_tag_is_contained(line: Seq<char>, tag: Seq<char>)
    requires
        has_number_tag(line, tag),
    ensures
        contains(line, tag),
{
}

/// A field stays as it is on every line without its own tag, and since when the
/// stream has been connected stays as it is on every line.
pub proof fn law_only_its_tag_changes_a_field(info: &mut StreamInfo, text: &str)
    requires
        call_ensures(parse_stream_info, (info, text), ()),
    ensures
        !contains(text@, "\"request_id\":200"@) && !contains(text@, "\"request_id\": 200"@)
            ==> final(info).audio_bitrate@ == old(info).audio_bitrate@,
        !contains(text@, "\"request_id\":201"@) && !contains(text@, "\"request_id\": 201"@)
            ==> final(info).cache_duration@ == old(info).cache_duration@,
        !contains(text@, "\"id\":2"@) && !contains(text@, "\"id\": 2"@) ==> final(info).audio_codec@ == old(info).audio_codec@,
        !contains(text@, "\"id\":3"@) && !contains(text@, "\"id\": 3"@) ==> final(info).sample_rate == old(info).sample_rate,
        !contains(text@, "\"id\":4"@) && !contains(text@, "\"id\": 4"@) ==> final(info).channels == old(info).channels,
        final(info).stream_connected_at == old(info).stream_connected_at,
{
    lemma_tags();
    let line = text@;
    assert forall|tag: Seq<char>| #[trigger] has_number_tag(line, tag) implies contains(line, tag) by {
        lemma_tag_is_contained(line, tag);
    }
}

/// Nor does a number that merely starts alike count as the tag: of a line in
/// which the key stands once, only the whole number behind it counts.
pub proof fn law_only_the_whole_number_is_the_tag(
    info: &mut StreamInfo,
    text: &str,
    before: Seq<char>,
    key: Seq<char>,
    colon: Seq<char>,
    m: nat,
    after: Seq<char>,
)
    requires
        call_ensures(parse_stream_info, (info, text), ()),
        text@ == before + key + colon + decimal(m) + after,
        key == "\"request_id\""@ || key == "\"id\""@,
        colon == ":"@ || colon == ": "@,
        after.len() > 0 ==> !('0' <= after[0] <= '9'),
        forall|i: int| #[trigger] occurs_at(text@, key, i) ==> i == before.len(),
    ensures
        key == "\"request_id\""@ && m != 200 ==> final(info).audio_bitrate@ == old(info).audio_bitrate@,
        key == "\"request_id\""@ && m != 201 ==> final(info).cache_duration@ == old(info).cache_duration@,
        key == "\"id\""@ && m != 2 ==> final(info).audio_codec@ == old(info).audio_codec@,
        key == "\"id\""@ && m != 3 ==> final(info).sample_rate == old(info).sample_rate,
        key == "\"id\""@ && m != 4 ==> final(info).channels == old(info).channels,
{
    law_a_tag_names_one_number(text@, before, key, colon, m, after, 200);
    law_a_tag_names_one_number(text@, before, key, colon, m, after, 201);
    law_a_tag_names_one_number(text@, before, key, colon, m, after, 2);
    law_a_tag_names_one_number(text@, before, key, colon, m, after, 3);
    law_a_tag_names_one_number(text@, before, key, colon, m, after, 4);
}

/// A tag that a further digit follows wherever it stands is not there at all.
pub proof fn law_a_tag_inside_a_longer_number_is_none(info: &mut StreamInfo, text: &str)
    requires
        call_ensures(parse_stream_info, (info, text), ()),
    ensures
        never_alone(text@, "\"request_id\":200"@) && never_alone(text@, "\"request_id\": 200"@)
            ==> final(info).audio_bitrate@ == old(info).audio_bitrate@,
        never_alone(text@, "\"request_id\":201"@) && never_alone(text@, "\"request_id\": 201"@)
            ==> final(info).cache_duration@ == old(info).cache_duration@,
        never_alone(text@, "\"id\":2"@) && never_alone(text@, "\"id\": 2"@) ==> final(info).audio_codec@ == old(
            info).audio_codec@,
        never_alone(text@, "\"id\":3"@) && never_alone(text@, "\"id\": 3"@) ==> final(info).sample_rate == old(
            info).sample_rate,
        never_alone(text@, "\"id\":4"@) && never_alone(text@, "\"id\": 4"@) ==> final(info).channels == old(
            info).channels,
{
    lemma_tags();
    let line = text@;
    assert forall|tag: Seq<char>| #[trigger] has_number_tag(line, tag) implies !never_alone(line, tag) by {
        let i = choose|i: int|
            #[trigger] occurs_at(line, tag, i) && (i + tag.len() == line.len() || !is_digit(line[i + tag.len()]));
        let (before, after) = (line.take(i), line.skip(i + tag.len()));
        assert(line =~= before + line.subrange(i, i + tag.len()) + after);
        assert(stands(line, before, tag, after));
    }
}

/// Wherever `tag` stands in `line`, a further digit follows.
pub open spec fn never_alone(line: Seq<char>, tag: Seq<char>) -> bool {
    forall|before: Seq<char>, after: Seq<char>| !#[trigger] stands(line, before, tag, after)
}

/// What a line does not carry cannot change anything: no data changes nothing,
/// data that is no numeral changes no number, and data that is no string leaves
/// the codec.
pub proof fn law_data_of_another_form_changes_nothing(
    info: &mut StreamInfo,
    text: &str,
    value: Option<String>,
    n: Option<Numeral>,
)
    requires
        call_ensures(parse_stream_info, (info, text), ()),
        call_ensures(extract_string_value, (text,), value),
        call_ensures(extract_number, (text,), n),
    ensures
        value is None ==> final(info).audio_codec@ == old(info).audio_codec@,
        n is None ==> {
            &&& final(info).audio_bitrate@ == old(info).audio_bitrate@
            &&& final(info).cache_duration@ == old(info).cache_duration@
            &&& final(info).sample_rate == old(info).sample_rate
            &&& final(info).channels == old(info).channels
        },
{
}

/// A length of time of an hour or more is given in hours and minutes, one of a
/// minute or more in minutes and seconds, and any other in seconds.
pub proof fn law_a_length_of_time_in_two_units(hours: nat, minutes: nat, seconds: nat, secs: u64, text: String)
    requires
        call_ensures(format_uptime, (secs,), text),
        secs == 3600 * hours + 60 * minutes + seconds,
        minutes < 60,
        seconds < 60,
    ensures
        hours > 0 ==> text@ == decimal(hours) + "h "@ + decimal(minutes) + "m"@,
        hours == 0 && minutes > 0 ==> text@ == decimal(minutes) + "m "@ + decimal(seconds) + "s"@,
        hours == 0 && minutes == 0 ==> text@ == decimal(seconds) + "s"@,
{
    let all = secs as nat;
    if hours > 0 {
        assert(all / 3600 == hours);
        assert(all % 3600 == 60 * minutes + seconds);
        assert((60 * minutes + seconds) / 60 == minutes);
    } else if minutes > 0 {
        assert(all / 60 == minutes);
        assert(all % 60 == seconds);
    }
}

/// Of a stream that is connected, the time since then is shown, by the clock, as
/// any length of time; without one there is a dash.
pub proof fn law_the_uptime_is_shown(info: &StreamInfo, text: String)
    requires
        call_ensures(StreamInfo::uptime_str, (info,), text),
    ensures
        info.stream_connected_at is None ==> text@ == seq!['\u{2014}'],
        info.stream_connected_at matches Some(t) ==> exists|span: Duration, secs: u64|
            #![trigger call_ensures(Duration::as_secs, (&span,), secs)]
            call_ensures(Instant::elapsed, (&t,), span) && call_ensures(Duration::as_secs, (&span,), secs)
                && text@ == (if secs >= 3600 {
                decimal((secs / 3600) as nat) + "h "@ + decimal((secs / 60 % 60) as nat) + "m"@
            } else if secs >= 60 {
                decimal((secs / 60) as nat) + "m "@ + decimal((secs % 60) as nat) + "s"@
            } else {
                decimal(secs as nat) + "s"@
            }),
{
    reveal_strlit("\u{2014}");
    assert("\u{2014}"@ =~= seq!['\u{2014}']);
    if let Some(t) = info.stream_connected_at {
        let (span, secs) = choose|span: Duration, secs: u64|
            #![trigger call_ensures(Duration::as_secs, (&span,), secs)]
            call_ensures(Instant::elapsed, (&t,), span) && call_ensures(Duration::as_secs, (&span,), secs)
                && text@ == uptime_text(secs as nat);
        assert((secs % 3600) / 60 == secs / 60 % 60);
        assert(call_ensures(Duration::as_secs, (&span,), secs));
    }
}

/// At first, and again once everything has been forgotten, nothing is known of a
/// stream: no codec, no start, and zero for every number.
pub proof fn law_nothing_is_known_at_first(fresh: StreamInfo, info: &mut StreamInfo)
    requires
        call_ensures(StreamInfo::new, (), fresh),
        call_ensures(StreamInfo::reset, (info,), ()),
    ensures
        fresh.audio_bitrate@ == seq!['0'] && final(info).audio_bitrate@ == seq!['0'],
        fresh.audio_codec@.len() == 0 && final(info).audio_codec@.len() == 0,
        fresh.cache_duration@ == seq!['0'] && final(info).cache_duration@ == seq!['0'],
        fresh.stream_connected_at is None && final(info).stream_connected_at is None,
        fresh.sample_rate == 0 && final(info).sample_rate == 0,
        fresh.channels == 0 && final(info).channels == 0,
{
    reveal_strlit("0");
    assert("0"@ =~= seq!['0']);
}

/// Any line can be looked at, and any length of time written.
pub proof fn law_any_line_can_be_looked_at(line: &str, info: &mut StreamInfo, secs: u64)
    ensures
        call_requires(extract_media_title, (line,)),
        call_requires(extract_string_value, (line,)),
        call_requires(extract_number, (line,)),
        call_requires(parse_stream_info, (info, line)),
        call_requires(format_uptime, (secs,)),
        call_requires(StreamInfo::new, ()),
        call_requires(StreamInfo::reset, (info,)),
        call_requires(StreamInfo::uptime_str, (&*old(info),)),
{
}

} // verus!
