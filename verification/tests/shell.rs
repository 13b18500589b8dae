use aethertune::shell::{capture_command, shell_escape};

/// What the shell makes of a word of quotations and escaped characters.
fn read_word(word: &str) -> Option<String> {
    let mut out = String::new();
    let mut chars = word.chars();
    while let Some(c) = chars.next() {
        match c {
            '\'' => loop {
                match chars.next()? {
                    '\'' => break,
                    inner => out.push(inner),
                }
            },
            '\\' => out.push(chars.next()?),
            _ => return None,
        }
    }
    Some(out)
}

#[test]
fn plain_text_is_quoted() {
    assert_eq!(shell_escape(""), "''");
    assert_eq!(shell_escape("/tmp/fifo"), "'/tmp/fifo'");
    assert_eq!(shell_escape("a b; rm $HOME"), "'a b; rm $HOME'");
}

#[test]
fn apostrophes_are_escaped() {
    assert_eq!(shell_escape("it's"), "'it'\\''s'");
    assert_eq!(shell_escape("'"), "''\\'''");
}

#[test]
fn a_quoted_word_is_read_back() {
    for text in ["", "x", "'", "''", "a'b'c", "\\'\"$`\n", "\u{e9} '\u{1f600}'"] {
        assert_eq!(read_word(&shell_escape(text)), Some(text.to_string()));
    }
}

#[test]
fn capture_command_line() {
    assert_eq!(
        capture_command("/tmp/it's"),
        "exec parec --format=s16le --channels=2 --rate=48000 --device=$(pactl get-default-sink).monitor > '/tmp/it'\\''s'"
    );
}
