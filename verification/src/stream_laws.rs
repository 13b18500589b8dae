//! What holds of the bytes that come from mpv, however they arrive.
use crate::mpv_ipc::{media_title, StreamInfoView};
use crate::player::{
    info_after, latest_title, lemma_info_keeps_start, tells_position, ConnectStatus, PlayerView, ReadEventView,
    ReadStepView, LINE_BREAK,
};
use crate::text::{line_of, trim_end};
use vstd::prelude::*;
use vstd::utf8::{
    char_u32_cast, encode_scalar, encode_utf8, encode_utf8_decode_utf8, encode_utf8_valid_utf8,
};

verus! {

/// The bytes that a read brought.
pub open spec fn bytes_of(read: ReadEventView) -> Seq<u8> {
    match read {
        ReadEventView::Data(bytes) => bytes,
        ReadEventView::WouldBlock(bytes) => bytes,
        _ => Seq::empty(),
    }
}

/// What a series of reads brought, in one piece.
pub open spec fn stream_of(reads: Seq<ReadEventView>) -> Seq<u8>
    decreases reads.len(),
{
    if reads.len() == 0 {
        Seq::empty()
    } else {
        bytes_of(reads[0]) + stream_of(reads.skip(1))
    }
}

/// A read of a live connection: up to and with a line break, or up to where
/// nothing more has arrived.
pub open spec fn is_live(read: ReadEventView) -> bool {
    match read {
        ReadEventView::Data(bytes) => {
            &&& bytes.len() > 0
            &&& bytes.last() == LINE_BREAK
            &&& !bytes.drop_last().contains(LINE_BREAK)
        },
        ReadEventView::WouldBlock(bytes) => !bytes.contains(LINE_BREAK),
        _ => false,
    }
}

/// Every read is one of a live connection.
pub open spec fn all_live(reads: Seq<ReadEventView>) -> bool {
    forall|i: int| 0 <= i < reads.len() ==> is_live(#[trigger] reads[i])
}

/// The lines that a series of reads completes.
pub open spec fn lines_read(s: PlayerView, reads: Seq<ReadEventView>) -> Seq<Seq<char>>
    decreases reads.len(),
{
    if reads.len() == 0 {
        Seq::empty()
    } else {
        let (next, result) = s.read(reads[0]);
        match result {
            ReadStepView::Line(line) => seq![line] + lines_read(next, reads.skip(1)),
            _ => lines_read(next, reads.skip(1)),
        }
    }
}

/// The state after a series of reads.
pub open spec fn after_reads(s: PlayerView, reads: Seq<ReadEventView>) -> PlayerView
    decreases reads.len(),
{
    if reads.len() == 0 {
        s
    } else {
        after_reads(s.read(reads[0]).0, reads.skip(1))
    }
}

/// Where the first line break is, or the length if there is none.
pub open spec fn first_break(bytes: Seq<u8>) -> int
    decreases bytes.len(),
{
    if bytes.len() == 0 || bytes[0] == LINE_BREAK {
        0
    } else {
        1 + first_break(bytes.skip(1))
    }
}

/// Every complete line is text.
pub open spec fn lines_are_text(bytes: Seq<u8>) -> bool
    decreases bytes.len(),
{
    let n = first_break(bytes);
    if 0 <= n < bytes.len() {
        line_of(bytes.take(n + 1)) is Some && lines_are_text(bytes.skip(n + 1))
    } else {
        true
    }
}

/// The complete lines, each without the white space at its end.
pub open spec fn complete_lines(bytes: Seq<u8>) -> Seq<Seq<char>>
    decreases bytes.len(),
{
    let n = first_break(bytes);
    if 0 <= n < bytes.len() {
        seq![line_of(bytes.take(n + 1))->0] + complete_lines(bytes.skip(n + 1))
    } else {
        Seq::empty()
    }
}

/// What stands behind the last line break.
pub open spec fn incomplete_line(bytes: Seq<u8>) -> Seq<u8>
    decreases bytes.len(),
{
    let n = first_break(bytes);
    if 0 <= n < bytes.len() {
        incomplete_line(bytes.skip(n + 1))
    } else {
        bytes
    }
}

proof fn lemma_first_break(head: Seq<u8>, tail: Seq<u8>)
    requires
        !head.contains(LINE_BREAK),
        tail.len() > 0 ==> tail[0] == LINE_BREAK,
    ensures
        first_break(head + tail) == head.len(),
    decreases head.len(),
{
    if head.len() == 0 {
        assert(head + tail == tail);
    } else {
        assert(head[0] != LINE_BREAK);
        assert((head + tail).skip(1) == head.skip(1) + tail);
        assert(!head.skip(1).contains(LINE_BREAK)) by {
            if head.skip(1).contains(LINE_BREAK) {
                let i = choose|i: int| 0 <= i < head.skip(1).len() && head.skip(1)[i] == LINE_BREAK;
                assert(head[i + 1] == LINE_BREAK);
            }
        }
        lemma_first_break(head.skip(1), tail);
    }
}

proof fn lemma_first_break_found(bytes: Seq<u8>)
    ensures
        0 <= first_break(bytes) <= bytes.len(),
        first_break(bytes) < bytes.len() ==> bytes[first_break(bytes)] == LINE_BREAK,
        !bytes.take(first_break(bytes)).contains(LINE_BREAK),
    decreases bytes.len(),
{
    let n = first_break(bytes);
    if bytes.len() > 0 && bytes[0] != LINE_BREAK {
        lemma_first_break_found(bytes.skip(1));
        if bytes.take(n).contains(LINE_BREAK) {
            let i = choose|i: int| 0 <= i < bytes.take(n).len() && bytes.take(n)[i] == LINE_BREAK;
            assert(bytes.skip(1).take(n - 1)[i - 1] == LINE_BREAK);
        }
    }
}

proof fn lemma_no_break_joined(a: Seq<u8>, b: Seq<u8>)
    requires
        !a.contains(LINE_BREAK),
        !b.contains(LINE_BREAK),
    ensures
        !(a + b).contains(LINE_BREAK),
{
    if (a + b).contains(LINE_BREAK) {
        let i = choose|i: int| 0 <= i < (a + b).len() && (a + b)[i] == LINE_BREAK;
        if i < a.len() {
            assert(a[i] == LINE_BREAK);
        } else {
            assert(b[i - a.len()] == LINE_BREAK);
        }
    }
}

proof fn lemma_no_break_left(bytes: Seq<u8>)
    ensures
        !incomplete_line(bytes).contains(LINE_BREAK),
    decreases bytes.len(),
{
    let n = first_break(bytes);
    lemma_first_break_found(bytes);
    if n < bytes.len() {
        lemma_no_break_left(bytes.skip(n + 1));
    } else {
        assert(bytes.take(n) == bytes);
    }
}

/// What has arrived may be taken apart into lines at once, or first one part of
/// it and later the rest together with what was left over.
pub proof fn law_lines_may_be_taken_in_parts(first: Seq<u8>, rest: Seq<u8>)
    ensures
        complete_lines(first + rest) == complete_lines(first) + complete_lines(incomplete_line(first) + rest),
        incomplete_line(first + rest) == incomplete_line(incomplete_line(first) + rest),
        lines_are_text(first + rest) <==> lines_are_text(first) && lines_are_text(
            incomplete_line(first) + rest,
        ),
    decreases first.len(),
{
    let n = first_break(first);
    lemma_first_break_found(first);
    if n < first.len() {
        let whole = first + rest;
        let after = first.skip(n + 1);
        lemma_first_break(first.take(n), first.skip(n) + rest);
        assert(first.take(n) + (first.skip(n) + rest) == whole);
        assert(whole.take(n + 1) == first.take(n + 1));
        assert(whole.skip(n + 1) == after + rest);
        law_lines_may_be_taken_in_parts(after, rest);
        assert(complete_lines(whole) == complete_lines(first) + complete_lines(incomplete_line(first) + rest));
    }
}

/// However the reads cut up what mpv writes, even in the middle of a character,
/// the lines that come out are the complete lines of the whole, and what is
/// left over waits for the rest of its line: a line that has arrived only in
/// part is not lost.
pub proof fn law_lines_survive_the_cuts(s: PlayerView, reads: Seq<ReadEventView>)
    requires
        !s.line_buf.contains(LINE_BREAK),
        all_live(reads),
        lines_are_text(s.line_buf + stream_of(reads)),
    ensures
        lines_read(s, reads) == complete_lines(s.line_buf + stream_of(reads)),
        after_reads(s, reads) == (PlayerView {
            line_buf: incomplete_line(s.line_buf + stream_of(reads)),
            ..s
        }),
    decreases reads.len(),
{
    let whole = s.line_buf + stream_of(reads);
    if reads.len() == 0 {
        assert(whole == s.line_buf);
        assert(s.line_buf + Seq::<u8>::empty() == s.line_buf);
        lemma_first_break(s.line_buf, Seq::empty());
    } else {
        assert(is_live(reads[0]));
        let rest = reads.skip(1);
        assert forall|i: int| 0 <= i < rest.len() implies is_live(#[trigger] rest[i]) by {
            assert(rest[i] == reads[i + 1]);
        }
        let next = s.read(reads[0]).0;
        match reads[0] {
            ReadEventView::WouldBlock(bytes) => {
                lemma_no_break_joined(s.line_buf, bytes);
                assert(next.line_buf + stream_of(rest) == whole);
                law_lines_survive_the_cuts(next, rest);
            },
            ReadEventView::Data(bytes) => {
                let line = s.line_buf + bytes;
                assert(line.last() == LINE_BREAK);
                let head = s.line_buf + bytes.drop_last();
                let tail = seq![LINE_BREAK] + stream_of(rest);
                lemma_no_break_joined(s.line_buf, bytes.drop_last());
                assert(whole == head + tail);
                lemma_first_break(head, tail);
                assert(whole.take(head.len() as int + 1) == line);
                assert(whole.skip(head.len() as int + 1) == stream_of(rest));
                assert(next.line_buf + stream_of(rest) == stream_of(rest));
                law_lines_survive_the_cuts(next, rest);
            },
            _ => {},
        }
    }
}

/// One poll: what has become of the attempt to connect, then the reads.
pub struct Round {
    pub status: ConnectStatus,
    pub reads: Seq<ReadEventView>,
}

/// The state after a poll of a live connection.
pub open spec fn after_round(s: PlayerView, round: Round) -> PlayerView {
    let polled = s.polled(round.status);
    after_reads(polled, round.reads).absorbed(lines_read(polled, round.reads), false)
}

/// The state after a series of polls.
pub open spec fn after_rounds(s: PlayerView, rounds: Seq<Round>) -> PlayerView
    decreases rounds.len(),
{
    if rounds.len() == 0 {
        s
    } else {
        after_rounds(after_round(s, rounds[0]), rounds.skip(1))
    }
}

/// What a series of polls brought, in one piece.
pub open spec fn stream_of_rounds(rounds: Seq<Round>) -> Seq<u8>
    decreases rounds.len(),
{
    if rounds.len() == 0 {
        Seq::empty()
    } else {
        stream_of(rounds[0].reads) + stream_of_rounds(rounds.skip(1))
    }
}

/// The connection is live in every poll.
pub open spec fn all_rounds_live(rounds: Seq<Round>) -> bool {
    forall|i: int| 0 <= i < rounds.len() ==> all_live((#[trigger] rounds[i]).reads)
}

/// The title once `line` has been taken in.
pub open spec fn title_after(title: Option<Seq<char>>, line: Seq<char>) -> Option<Seq<char>> {
    match media_title(line) {
        Some(new) if new.len() > 0 => Some(new),
        _ => title,
    }
}

/// Whatever a poll brings, and whether or not the connection then comes to its
/// end, the lines that are complete are taken in one after the other, each once
/// and in the order in which they came. One of them that tells the position
/// raises the level, unless audio is captured. Since when the stream has been
/// connected, whether mpv runs, the generation, and whether the visualizer is
/// on do not change.
pub proof fn law_a_poll_takes_each_line_once(
    s: PlayerView,
    status: ConnectStatus,
    reads: Seq<ReadEventView>,
    closed: bool,
)
    ensures
        ({
            let polled = s.polled(status);
            let lines = lines_read(polled, reads);
            let t = after_reads(polled, reads).absorbed(lines, closed);
            &&& t.stream_info == lines.fold_left(
                s.stream_info,
                |info: StreamInfoView, line: Seq<char>| info.after_line(line),
            )
            &&& t.media_title == lines.fold_left(
                s.media_title,
                |title: Option<Seq<char>>, line: Seq<char>| title_after(title, line),
            )
            &&& t.audio_level == (if !s.capture && exists|i: int|
                0 <= i < lines.len() && tells_position(#[trigger] lines[i]) {
                70
            } else {
                s.audio_level
            })
            &&& t.stream_info.stream_connected_at == s.stream_info.stream_connected_at
            &&& t.process == s.process
            &&& t.ipc_generation == s.ipc_generation
            &&& t.visualizer_enabled == s.visualizer_enabled
        }),
{
    let polled = s.polled(status);
    let lines = lines_read(polled, reads);
    lemma_reads_fill_the_buffer(polled, reads);
    lemma_lines_in_order(s.stream_info, s.media_title, lines);
    lemma_info_keeps_start(s.stream_info, lines);
}

pub(crate) proof fn lemma_lines_in_order(info: StreamInfoView, title: Option<Seq<char>>, lines: Seq<Seq<char>>)
    ensures
        info_after(info, lines) == lines.fold_left(
            info,
            |info: StreamInfoView, line: Seq<char>| info.after_line(line),
        ),
        latest_title(lines, title) == lines.fold_left(
            title,
            |title: Option<Seq<char>>, line: Seq<char>| title_after(title, line),
        ),
    decreases lines.len(),
{
    if lines.len() > 0 {
        lemma_lines_in_order(info, title, lines.drop_last());
    }
}

proof fn lemma_reads_fill_the_buffer(s: PlayerView, reads: Seq<ReadEventView>)
    ensures
        after_reads(s, reads) == (PlayerView { line_buf: after_reads(s, reads).line_buf, ..s }),
    decreases reads.len(),
{
    if reads.len() > 0 {
        lemma_reads_fill_the_buffer(s.read(reads[0]).0, reads.skip(1));
    }
}

proof fn lemma_lines_joined(s: PlayerView, a: Seq<Seq<char>>, b: Seq<Seq<char>>)
    ensures
        latest_title(a + b, s.media_title) == latest_title(b, latest_title(a, s.media_title)),
        info_after(s.stream_info, a + b) == info_after(info_after(s.stream_info, a), b),
    decreases b.len(),
{
    if b.len() == 0 {
        assert(a + b == a);
    } else {
        assert((a + b).drop_last() == a + b.drop_last());
        assert((a + b).last() == b.last());
        lemma_lines_joined(s, a, b.drop_last());
    }
}

proof fn lemma_absorbed_in_parts(s: PlayerView, a: Seq<Seq<char>>, b: Seq<Seq<char>>)
    ensures
        s.absorbed(a + b, false) == s.absorbed(a, false).absorbed(b, false),
{
    lemma_lines_joined(s, a, b);
    let whole = a + b;
    let in_a = exists|i: int| 0 <= i < a.len() && tells_position(#[trigger] a[i]);
    let in_b = exists|i: int| 0 <= i < b.len() && tells_position(#[trigger] b[i]);
    let in_whole = exists|i: int| 0 <= i < whole.len() && tells_position(#[trigger] whole[i]);
    if in_a {
        let i = choose|i: int| 0 <= i < a.len() && tells_position(#[trigger] a[i]);
        assert(tells_position(whole[i]));
    }
    if in_b {
        let i = choose|i: int| 0 <= i < b.len() && tells_position(#[trigger] b[i]);
        assert(tells_position(whole[a.len() + i]));
    }
    if in_whole {
        let i = choose|i: int| 0 <= i < whole.len() && tells_position(#[trigger] whole[i]);
        if i < a.len() {
            assert(tells_position(a[i]));
        } else {
            assert(tells_position(b[i - a.len()]));
        }
    }
}

/// However many polls it takes for what mpv writes to arrive, and wherever it
/// is cut, the player ends up where it would be had it all arrived at once:
/// only the count of the polls tells the difference.
pub proof fn law_polls_read_on(s: PlayerView, rounds: Seq<Round>)
    requires
        s.wf(),
        s.reader,
        !s.line_buf.contains(LINE_BREAK),
        all_rounds_live(rounds),
        lines_are_text(s.line_buf + stream_of_rounds(rounds)),
    ensures
        ({
            let whole = s.line_buf + stream_of_rounds(rounds);
            let at_once = PlayerView { line_buf: incomplete_line(whole), ..s }.absorbed(
                complete_lines(whole),
                false,
            );
            after_rounds(s, rounds) == (PlayerView {
                request_counter: after_rounds(s, rounds).request_counter,
                ..at_once
            })
        }),
    decreases rounds.len(),
{
    let whole = s.line_buf + stream_of_rounds(rounds);
    if rounds.len() == 0 {
        assert(whole == s.line_buf);
        assert(s.line_buf + Seq::<u8>::empty() == s.line_buf);
        lemma_first_break(s.line_buf, Seq::empty());
    } else {
        let round = rounds[0];
        let later = rounds.skip(1);
        let polled = s.polled(round.status);
        let first = s.line_buf + stream_of(round.reads);
        let left = incomplete_line(first);
        assert(all_live(round.reads));
        assert(whole == first + stream_of_rounds(later));
        law_lines_may_be_taken_in_parts(first, stream_of_rounds(later));
        law_lines_survive_the_cuts(polled, round.reads);
        lemma_no_break_left(first);
        let next = after_round(s, round);
        lemma_info_keeps_start(s.stream_info, complete_lines(first));
        assert(next.line_buf == left);
        assert forall|i: int| 0 <= i < later.len() implies all_live((#[trigger] later[i]).reads) by {
            assert(later[i] == rounds[i + 1]);
        }
        law_polls_read_on(next, later);
        lemma_absorbed_in_parts(s, complete_lines(first), complete_lines(left + stream_of_rounds(later)));
    }
}

/// It makes no difference to what is known of the stream, nor to the line that
/// is under way, over which polls the same bytes are spread.
pub proof fn law_the_spread_does_not_matter(s: PlayerView, a: Seq<Round>, b: Seq<Round>)
    requires
        s.wf(),
        s.reader,
        !s.line_buf.contains(LINE_BREAK),
        all_rounds_live(a),
        all_rounds_live(b),
        stream_of_rounds(a) == stream_of_rounds(b),
        lines_are_text(s.line_buf + stream_of_rounds(a)),
    ensures
        after_rounds(s, a).media_title == after_rounds(s, b).media_title,
        after_rounds(s, a).stream_info == after_rounds(s, b).stream_info,
        after_rounds(s, a).audio_level == after_rounds(s, b).audio_level,
        after_rounds(s, a).line_buf == after_rounds(s, b).line_buf,
{
    law_polls_read_on(s, a);
    law_polls_read_on(s, b);
}

/// Where the first line break is, or the length if there is none.
pub open spec fn first_break_of_text(text: Seq<char>) -> int
    decreases text.len(),
{
    if text.len() == 0 || text[0] == '\n' {
        0
    } else {
        1 + first_break_of_text(text.skip(1))
    }
}

/// The complete lines of a text, each without the white space at its end.
pub open spec fn text_lines(text: Seq<char>) -> Seq<Seq<char>>
    decreases text.len(),
{
    let n = first_break_of_text(text);
    if 0 <= n < text.len() {
        seq![trim_end(text.take(n + 1))] + text_lines(text.skip(n + 1))
    } else {
        Seq::empty()
    }
}

/// What stands behind the last line break of a text.
pub open spec fn text_left(text: Seq<char>) -> Seq<char>
    decreases text.len(),
{
    let n = first_break_of_text(text);
    if 0 <= n < text.len() {
        text_left(text.skip(n + 1))
    } else {
        text
    }
}

proof fn lemma_first_break_of_text(text: Seq<char>)
    ensures
        0 <= first_break_of_text(text) <= text.len(),
        first_break_of_text(text) < text.len() ==> text[first_break_of_text(text)] == '\n',
        !text.take(first_break_of_text(text)).contains('\n'),
    decreases text.len(),
{
    let n = first_break_of_text(text);
    if text.len() > 0 && text[0] != '\n' {
        lemma_first_break_of_text(text.skip(1));
        if text.take(n).contains('\n') {
            let i = choose|i: int| 0 <= i < text.take(n).len() && text.take(n)[i] == '\n';
            assert(text.skip(1).take(n - 1)[i - 1] == '\n');
        }
    }
}

proof fn lemma_encoded_in_parts(a: Seq<char>, b: Seq<char>)
    ensures
        encode_utf8(a + b) == encode_utf8(a) + encode_utf8(b),
    decreases a.len(),
{
    if a.len() == 0 {
        assert(a + b == b);
    } else {
        assert((a + b).drop_first() == a.drop_first() + b);
        lemma_encoded_in_parts(a.drop_first(), b);
    }
}

proof fn lemma_scalar_without_break(scalar: u32)
    requires
        scalar != 10,
    ensures
        !encode_scalar(scalar).contains(LINE_BREAK),
{
    assert(scalar <= 0x7f && scalar != 10 ==> (scalar & 0x7f) as u8 != 10u8) by (bit_vector);
    assert(0xc0u8 | ((scalar >> 6) & 0x1f) as u8 != 10u8) by (bit_vector);
    assert(0xe0u8 | ((scalar >> 12) & 0x0f) as u8 != 10u8) by (bit_vector);
    assert(0xf0u8 | ((scalar >> 18) & 0x7) as u8 != 10u8) by (bit_vector);
    assert(0x80u8 | (scalar & 0x3f) as u8 != 10u8) by (bit_vector);
    assert(0x80u8 | ((scalar >> 6) & 0x3f) as u8 != 10u8) by (bit_vector);
    assert(0x80u8 | ((scalar >> 12) & 0x3f) as u8 != 10u8) by (bit_vector);
}

proof fn lemma_encoded_without_break(text: Seq<char>)
    requires
        !text.contains('\n'),
    ensures
        !encode_utf8(text).contains(LINE_BREAK),
    decreases text.len(),
{
    if text.len() > 0 {
        let rest = text.drop_first();
        assert(text[0] != '\n');
        assert(!rest.contains('\n')) by {
            if rest.contains('\n') {
                let i = choose|i: int| 0 <= i < rest.len() && rest[i] == '\n';
                assert(text[i + 1] == '\n');
            }
        }
        lemma_encoded_without_break(rest);
        char_u32_cast(text[0], text[0] as u32);
        lemma_scalar_without_break(text[0] as u32);
        lemma_no_break_joined(encode_scalar(text[0] as u32), encode_utf8(rest));
    }
}

proof fn lemma_encoded_break()
    ensures
        encode_utf8(seq!['\n']) == seq![LINE_BREAK],
{
    let newline = seq!['\n'];
    assert((10u32 & 0x7f) as u8 == 10u8) by (bit_vector);
    assert(newline.drop_first() == Seq::<char>::empty());
    assert(encode_utf8(newline.drop_first()) == Seq::<u8>::empty());
}

/// Text that arrives as UTF-8 comes out again line by line, and what is left
/// over is the rest of the text.
pub proof fn law_text_comes_out_in_lines(text: Seq<char>)
    ensures
        lines_are_text(encode_utf8(text)),
        complete_lines(encode_utf8(text)) == text_lines(text),
        incomplete_line(encode_utf8(text)) == encode_utf8(text_left(text)),
    decreases text.len(),
{
    let n = first_break_of_text(text);
    let bytes = encode_utf8(text);
    lemma_first_break_of_text(text);
    let head = text.take(n);
    lemma_encoded_without_break(head);
    if n < text.len() {
        let line = text.take(n + 1);
        let rest = text.skip(n + 1);
        let newline = seq!['\n'];
        lemma_encoded_break();
        assert(line == head + newline);
        assert(text == line + rest);
        lemma_encoded_in_parts(head, newline);
        lemma_encoded_in_parts(line, rest);
        let tail = seq![LINE_BREAK] + encode_utf8(rest);
        assert(bytes == encode_utf8(head) + tail);
        lemma_first_break(encode_utf8(head), tail);
        let m = first_break(bytes);
        assert(bytes.take(m + 1) == encode_utf8(line));
        assert(bytes.skip(m + 1) == encode_utf8(rest));
        encode_utf8_valid_utf8(line);
        encode_utf8_decode_utf8(line);
        law_text_comes_out_in_lines(rest);
    } else {
        assert(head == text);
        assert(bytes + Seq::<u8>::empty() == bytes);
        lemma_first_break(bytes, Seq::empty());
    }
}

/// A line may be cut at any byte, also in the middle of a character: the first
/// part waits, and once the rest has come the line is there as it was written,
/// but for the white space at its end.
pub proof fn law_a_cut_line_is_completed(s: PlayerView, text: Seq<char>, cut: int)
    requires
        s.line_buf.len() == 0,
        !text.contains('\n'),
        0 <= cut <= encode_utf8(text).len(),
    ensures
        ({
            let bytes = encode_utf8(text.push('\n'));
            let (waiting, first) = s.read(ReadEventView::WouldBlock(bytes.take(cut)));
            let (done, second) = waiting.read(ReadEventView::Data(bytes.skip(cut)));
            &&& first is Idle
            &&& waiting == (PlayerView { line_buf: bytes.take(cut), ..s })
            &&& second == ReadStepView::Line(trim_end(text.push('\n')))
            &&& done == s
        }),
{
    let line = text.push('\n');
    let bytes = encode_utf8(line);
    let newline = seq!['\n'];
    assert(line == text + newline);
    lemma_encoded_in_parts(text, newline);
    lemma_encoded_break();
    assert(bytes == encode_utf8(text).push(LINE_BREAK));
    let waiting = s.read(ReadEventView::WouldBlock(bytes.take(cut))).0;
    assert(waiting.line_buf == bytes.take(cut));
    assert(waiting.line_buf + bytes.skip(cut) == bytes);
    encode_utf8_valid_utf8(line);
    encode_utf8_decode_utf8(line);
    let done = waiting.read(ReadEventView::Data(bytes.skip(cut))).0;
    assert(done.line_buf == s.line_buf);
}

} // verus!
