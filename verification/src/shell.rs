//! Command lines for the POSIX shell.
use crate::text::to_chars;
use vstd::prelude::*;
use vstd::string::*;

verus! {

/// `s` with every apostrophe replaced: the quotation is closed, an escaped
/// apostrophe follows, and the quotation is opened again.
pub open spec fn escaped(s: Seq<char>) -> Seq<char>
    decreases s.len(),
{
    if s.len() == 0 {
        Seq::empty()
    } else if s.last() == '\'' {
        escaped(s.drop_last()) + seq!['\'', '\\', '\'', '\'']
    } else {
        escaped(s.drop_last()).push(s.last())
    }
}

/// `s` as one quoted word.
pub open spec fn quoted(s: Seq<char>) -> Seq<char> {
    seq!['\''] + escaped(s) + seq!['\'']
}

/// What the shell makes of a word that consists of quotations and escaped
/// characters; none where a quotation stays open or anything else turns up.
pub open spec fn word_value(word: Seq<char>) -> Option<Seq<char>>
    decreases word.len(),
{
    if word.len() == 0 {
        Some(Seq::empty())
    } else if word[0] == '\'' {
        quotation_value(word.skip(1))
    } else if word[0] == '\\' && word.len() >= 2 && word[1] != '\n' {
        match word_value(word.skip(2)) {
            Some(rest) => Some(seq![word[1]] + rest),
            None => None,
        }
    } else {
        None
    }
}

/// The same inside a quotation, where only an apostrophe is special.
pub open spec fn quotation_value(word: Seq<char>) -> Option<Seq<char>>
    decreases word.len(),
{
    if word.len() == 0 {
        None
    } else if word[0] == '\'' {
        word_value(word.skip(1))
    } else {
        match quotation_value(word.skip(1)) {
            Some(rest) => Some(seq![word[0]] + rest),
            None => None,
        }
    }
}

/// The shell command that writes what the default output plays to `fifo`.
pub open spec fn capture_command_text(fifo: Seq<char>) -> Seq<char> {
    "exec parec --format=s16le --channels=2 --rate=48000 --device=$(pactl get-default-sink).monitor > "@
        + quoted(fifo)
}

/// The shell reads a quoted word back as the text that was quoted.
pub proof fn law_quoted_word_is_read_back(s: Seq<char>)
    ensures
        word_value(quoted(s)) == Some(s),
{
    let end = seq!['\''];
    assert(quoted(s).skip(1) == escaped(s) + end);
    assert(word_value(end.skip(1)) == Some(Seq::<char>::empty()));
    assert(quotation_value(end) == Some(Seq::<char>::empty()));
    lemma_escaped_prefix(s, end);
    assert(s + Seq::<char>::empty() == s);
}

/// Inside a quotation, an escaped text gives the text itself in front of what
/// follows.
proof fn lemma_escaped_prefix(s: Seq<char>, rest: Seq<char>)
    ensures
        match quotation_value(rest) {
            Some(t) => quotation_value(escaped(s) + rest) == Some(s + t),
            None => quotation_value(escaped(s) + rest) is None,
        },
    decreases s.len(),
{
    if s.len() == 0 {
        assert(escaped(s) + rest == rest);
        if let Some(t) = quotation_value(rest) {
            assert(s + t == t);
        }
    } else {
        let head = s.drop_last();
        let c = s.last();
        assert(s == head.push(c));
        if c == '\'' {
            let mid = seq!['\'', '\\', '\'', '\''] + rest;
            assert(escaped(s) + rest == escaped(head) + mid);
            assert(mid.skip(1).skip(2).skip(1) == rest);
            assert(quotation_value(mid) == word_value(mid.skip(1)));
            assert(word_value(mid.skip(1).skip(2)) == quotation_value(rest));
            lemma_escaped_prefix(head, mid);
        } else {
            let mid = seq![c] + rest;
            assert(escaped(s) + rest == escaped(head) + mid);
            assert(mid.skip(1) == rest);
            lemma_escaped_prefix(head, mid);
        }
        if let Some(t) = quotation_value(rest) {
            assert(head + (seq![c] + t) == s + t);
        }
    }
}

/// `s` as one word of a shell command, whatever characters it holds.
pub fn shell_escape(s: &str) -> (word: String)
    ensures
        word@ == quoted(s@),
{
    let chars = to_chars(s);
    let mut word = String::new();
    word.push('\'');
    let mut i: usize = 0;
    assert(escaped(chars@.take(0)) == Seq::<char>::empty());
    while i < chars.len()
        invariant
            i <= chars@.len(),
            word@ == seq!['\''] + escaped(chars@.take(i as int)),
        decreases chars.len() - i,
    {
        let c = chars[i];
        assert(chars@.take(i + 1).drop_last() == chars@.take(i as int));
        if c == '\'' {
            word.push('\'');
            word.push('\\');
            word.push('\'');
            word.push('\'');
        } else {
            word.push(c);
        }
        i += 1;
        assert(word@ =~= seq!['\''] + escaped(chars@.take(i as int)));
    }
    assert(chars@.take(chars@.len() as int) == chars@);
    word.push('\'');
    assert(word@ =~= quoted(s@));
    word
}

/// The shell command that writes what the default output plays to `fifo`, as
/// raw 16-bit stereo samples.
pub fn capture_command(fifo: &str) -> (command: String)
    ensures
        command@ == capture_command_text(fifo@),
{
    let mut command =
        "exec parec --format=s16le --channels=2 --rate=48000 --device=$(pactl get-default-sink).monitor > ".to_owned();
    command.append(shell_escape(fifo).as_str());
    command
}

/// Whatever text is escaped, the shell reads the word that comes out as that
/// text, and the word is all quotation: it starts and ends with an apostrophe.
pub proof fn law_an_escaped_word_is_read_back(s: &str, word: String)
    requires
        call_ensures(shell_escape, (s,), word),
    ensures
        word_value(word@) == Some(s@),
        word@.len() >= 2,
        word@.first() == '\'',
        word@.last() == '\'',
{
    law_quoted_word_is_read_back(s@);
}

/// Text without an apostrophe stands in the word as it is.
pub proof fn law_plain_text_is_only_quoted(s: &str, word: String)
    requires
        call_ensures(shell_escape, (s,), word),
        !s@.contains('\''),
    ensures
        word@ == seq!['\''] + s@ + seq!['\''],
{
    lemma_plain_text(s@);
}

proof fn lemma_plain_text(s: Seq<char>)
    requires
        !s.contains('\''),
    ensures
        escaped(s) == s,
    decreases s.len(),
{
    if s.len() > 0 {
        assert(s.last() != '\'');
        assert(!s.drop_last().contains('\'')) by {
            if s.drop_last().contains('\'') {
                let i = choose|i: int| 0 <= i < s.drop_last().len() && s.drop_last()[i] == '\'';
                assert(s[i] == '\'');
            }
        }
        lemma_plain_text(s.drop_last());
        assert(s.drop_last().push(s.last()) == s);
    }
}

/// The command that captures audio records raw 16-bit stereo at 48000 samples a
/// second from what the default output plays, in place of the shell itself, and
/// writes to the file that was named, whatever characters its name holds.
pub proof fn law_the_capture_goes_to_the_file(fifo: &str, command: String)
    requires
        call_ensures(capture_command, (fifo,), command),
    ensures
        ({
            let recorder =
                "exec parec --format=s16le --channels=2 --rate=48000 --device=$(pactl get-default-sink).monitor > "@;
            &&& recorder.is_prefix_of(command@)
            &&& word_value(command@.skip(recorder.len() as int)) == Some(fifo@)
        }),
{
    let recorder =
        "exec parec --format=s16le --channels=2 --rate=48000 --device=$(pactl get-default-sink).monitor > "@;
    law_quoted_word_is_read_back(fifo@);
    assert(command@.subrange(0, recorder.len() as int) == recorder);
    assert(command@.skip(recorder.len() as int) == quoted(fifo@));
}

/// An apostrophe closes the quotation, stands behind a backslash, and opens the
/// quotation again; what is before and behind it is quoted as on its own.
pub proof fn law_an_apostrophe_is_escaped(a: Seq<char>, s: &str, word: String, b: &str, rest: String)
    requires
        call_ensures(shell_escape, (s,), word),
        call_ensures(shell_escape, (b,), rest),
        !a.contains('\''),
        s@ == a + seq!['\''] + b@,
    ensures
        word@ == seq!['\''] + a + seq!['\'', '\\', '\'', '\''] + rest@.skip(1),
{
    lemma_plain_text(a);
    let apostrophe = seq!['\''];
    let head = a + apostrophe;
    assert(head.drop_last() =~= a);
    assert(head.last() == '\'');
    lemma_escaped_in_parts(head, b@);
    assert(rest@.skip(1) =~= escaped(b@) + apostrophe);
    assert(word@ =~= seq!['\''] + a + seq!['\'', '\\', '\'', '\''] + rest@.skip(1));
}

proof fn lemma_escaped_in_parts(a: Seq<char>, b: Seq<char>)
    ensures
        escaped(a + b) == escaped(a) + escaped(b),
    decreases b.len(),
{
    if b.len() == 0 {
        assert(a + b =~= a);
        assert(escaped(a) + escaped(b) =~= escaped(a));
    } else {
        assert((a + b).drop_last() =~= a + b.drop_last());
        assert((a + b).last() == b.last());
        lemma_escaped_in_parts(a, b.drop_last());
        assert(escaped(a + b) =~= escaped(a) + escaped(b));
    }
}

/// Any text can be escaped, and any file captured to.
pub proof fn law_any_text_can_be_escaped(s: &str)
    ensures
        call_requires(shell_escape, (s,)),
        call_requires(capture_command, (s,)),
{
}

} // verus!
