//! Searching, trimming, decoding and building text, as sequences of characters.
use core::str::Utf8Error;
use vstd::prelude::*;
use vstd::slice::slice_subrange;
use vstd::string::*;
use vstd::utf8::{decode_utf8, encode_utf8_decode_utf8, valid_utf8};

verus! {

/// `String::push` appends one character.
pub assume_specification[ String::push ](s: &mut String, c: char)
    ensures
        final(s)@ == old(s)@.push(c),
;

/// `String::pop` takes the last character off, if there is one.
pub assume_specification[ String::pop ](s: &mut String) -> (last: Option<char>)
    ensures
        old(s)@.len() == 0 ==> last is None && final(s)@ == old(s)@,
        old(s)@.len() > 0 ==> last == Some(old(s)@.last()) && final(s)@ == old(s)@.drop_last(),
;

/// The characters with the Unicode `White_Space` property.
pub open spec fn is_white_space(c: char) -> bool {
    let n = c as u32;
    ||| 0x09 <= n <= 0x0d
    ||| n == 0x20
    ||| n == 0x85
    ||| n == 0xa0
    ||| n == 0x1680
    ||| 0x2000 <= n <= 0x200a
    ||| n == 0x2028
    ||| n == 0x2029
    ||| n == 0x202f
    ||| n == 0x205f
    ||| n == 0x3000
}

/// `char::is_whitespace` tells whether a character has the Unicode
/// `White_Space` property.
pub assume_specification[ char::is_whitespace ](c: char) -> (white: bool)
    ensures
        white == is_white_space(c),
;

/// `Utf8Error` of std: why bytes are not UTF-8. Nothing is known of what it
/// holds.
#[verifier::external_type_specification]
#[verifier::external_body]
pub struct ExUtf8Error(Utf8Error);

/// `std::str::from_utf8` takes bytes for text if and only if they are valid
/// UTF-8; the text is then the one that they encode.
pub assume_specification[ core::str::from_utf8 ](v: &[u8]) -> (text: Result<&str, Utf8Error>)
    ensures
        text is Ok <==> valid_utf8(v@),
        text matches Ok(text) ==> text.spec_bytes() == v@,
;

/// `pattern` stands in `text` at position `i`.
pub open spec fn occurs_at(text: Seq<char>, pattern: Seq<char>, i: int) -> bool {
    &&& 0 <= i
    &&& i + pattern.len() <= text.len()
    &&& text.subrange(i, i + pattern.len()) == pattern
}

/// `pattern` stands somewhere in `text`.
pub open spec fn contains(text: Seq<char>, pattern: Seq<char>) -> bool {
    exists|i: int| occurs_at(text, pattern, i)
}

/// `i` is the leftmost position of `pattern` in `text`.
pub open spec fn first_at(text: Seq<char>, pattern: Seq<char>, i: int) -> bool {
    &&& occurs_at(text, pattern, i)
    &&& forall|j: int| 0 <= j < i ==> !occurs_at(text, pattern, j)
}

/// The leftmost position of `pattern` in `text`, if it stands there at all.
pub open spec fn find(text: Seq<char>, pattern: Seq<char>) -> Option<int> {
    if contains(text, pattern) {
        Some(choose|i: int| first_at(text, pattern, i))
    } else {
        None
    }
}

/// `text` without the white space that it starts with.
pub open spec fn trim_start(text: Seq<char>) -> Seq<char>
    decreases text.len(),
{
    if text.len() > 0 && is_white_space(text[0]) {
        trim_start(text.skip(1))
    } else {
        text
    }
}

/// `text` without the white space that it ends with.
pub open spec fn trim_end(text: Seq<char>) -> Seq<char>
    decreases text.len(),
{
    if text.len() > 0 && is_white_space(text.last()) {
        trim_end(text.drop_last())
    } else {
        text
    }
}

/// The digit `d` as a character.
pub open spec fn digit_char(d: int) -> char {
    ('0' as int + d) as char
}

/// `n` in decimal, without leading zeros.
pub open spec fn decimal(n: nat) -> Seq<char>
    decreases n,
{
    if n < 10 {
        seq![digit_char(n as int)]
    } else {
        decimal(n / 10).push(digit_char((n % 10) as int))
    }
}

/// The characters of `text`, one by one.
pub(crate) fn to_chars(text: &str) -> (chars: Vec<char>)
    ensures
        chars@ == text@,
{
    let mut chars: Vec<char> = Vec::new();
    for c in it: text.chars()
        invariant
            it.seq() == text@,
            chars@ == text@.take(it.index() as int),
    {
        chars.push(c);
    }
    assert(text@.take(text@.len() as int) == text@);
    chars
}

/// The string made of `chars`.
pub(crate) fn from_chars(chars: &[char]) -> (text: String)
    ensures
        text@ == chars@,
{
    let mut text = String::new();
    let mut i: usize = 0;
    while i < chars.len()
        invariant
            i <= chars.len(),
            text@ == chars@.take(i as int),
        decreases chars.len() - i,
    {
        text.push(chars[i]);
        assert(chars@.take(i as int).push(chars@[i as int]) == chars@.take(i + 1));
        i += 1;
    }
    assert(chars@.take(chars@.len() as int) == chars@);
    text
}

/// Where `find` gives a position, it is the leftmost one.
proof fn lemma_find_first(text: Seq<char>, pattern: Seq<char>)
    ensures
        match find(text, pattern) {
            Some(i) => first_at(text, pattern, i),
            None => forall|i: int| !occurs_at(text, pattern, i),
        },
{
    if contains(text, pattern) {
        let i = choose|i: int| occurs_at(text, pattern, i);
        lemma_leftmost_exists(text, pattern, i);
    }
}

proof fn lemma_leftmost_exists(text: Seq<char>, pattern: Seq<char>, i: int)
    requires
        occurs_at(text, pattern, i),
    ensures
        exists|k: int| first_at(text, pattern, k),
    decreases i,
{
    if exists|j: int| 0 <= j < i && occurs_at(text, pattern, j) {
        let j = choose|j: int| 0 <= j < i && occurs_at(text, pattern, j);
        lemma_leftmost_exists(text, pattern, j);
    } else {
        assert(first_at(text, pattern, i));
    }
}

/// A leftmost position is the one that `find` gives.
pub proof fn lemma_find_is(text: Seq<char>, pattern: Seq<char>, i: int)
    requires
        first_at(text, pattern, i),
    ensures
        find(text, pattern) == Some(i),
{
    lemma_find_first(text, pattern);
    let k = find(text, pattern)->0;
    assert(!(k < i) && !(i < k));
}

/// Whether `pattern` stands in `text` at position `i`.
pub(crate) fn matches_at(text: &[char], pattern: &[char], i: usize) -> (found: bool)
    requires
        i + pattern.len() <= text.len(),
    ensures
        found == occurs_at(text@, pattern@, i as int),
{
    let mut k: usize = 0;
    while k < pattern.len()
        invariant
            k <= pattern.len(),
            i + pattern.len() <= text.len(),
            forall|j: int| 0 <= j < k ==> text@[i + j] == pattern@[j],
        decreases pattern.len() - k,
    {
        if text[i + k] != pattern[k] {
            assert(text@.subrange(i as int, i + pattern@.len())[k as int] != pattern@[k as int]);
            return false;
        }
        k += 1;
    }
    assert(text@.subrange(i as int, i + pattern@.len()) =~= pattern@);
    true
}

/// The leftmost position of `pattern` in `text`.
pub(crate) fn find_chars(text: &[char], pattern: &[char]) -> (position: Option<usize>)
    ensures
        match position {
            Some(i) => find(text@, pattern@) == Some(i as int) && i + pattern@.len() <= text@.len(),
            None => find(text@, pattern@) is None,
        },
{
    if pattern.len() > text.len() {
        return None;
    }
    let last: usize = text.len() - pattern.len();
    let mut i: usize = 0;
    loop
        invariant
            last == text@.len() - pattern@.len(),
            i <= last,
            forall|j: int| 0 <= j < i ==> !occurs_at(text@, pattern@, j),
        decreases last - i,
    {
        if matches_at(text, pattern, i) {
            proof {
                lemma_find_is(text@, pattern@, i as int);
            }
            return Some(i);
        }
        if i == last {
            return None;
        }
        i += 1;
    }
}

/// Whether `pattern` stands somewhere in `text`.
pub(crate) fn contains_text(text: &[char], pattern: &str) -> (found: bool)
    ensures
        found == contains(text@, pattern@),
{
    let pattern = to_chars(pattern);
    find_chars(text, pattern.as_slice()).is_some()
}

/// Whether `text` starts with `prefix`.
pub(crate) fn starts_with_text(text: &[char], prefix: &str) -> (yes: bool)
    ensures
        yes == prefix@.is_prefix_of(text@),
{
    let prefix = to_chars(prefix);
    if prefix.len() > text.len() {
        return false;
    }
    matches_at(text, prefix.as_slice(), 0)
}

/// Whether `text` is the same as `other`.
pub(crate) fn is_text(text: &[char], other: &str) -> (yes: bool)
    ensures
        yes == (text@ == other@),
{
    let other = to_chars(other);
    if other.len() != text.len() {
        return false;
    }
    assert(text@.subrange(0, text@.len() as int) == text@);
    matches_at(text, other.as_slice(), 0)
}

/// `text` without the white space that it starts with.
pub(crate) fn trim_start_chars(text: &[char]) -> (trimmed: &[char])
    ensures
        trimmed@ == trim_start(text@),
{
    let mut i: usize = 0;
    assert(text@.skip(0) == text@);
    while i < text.len() && text[i].is_whitespace()
        invariant
            i <= text.len(),
            trim_start(text@) == trim_start(text@.skip(i as int)),
        decreases text.len() - i,
    {
        assert(text@.skip(i as int).skip(1) == text@.skip(i + 1));
        i += 1;
    }
    assert(text@.subrange(i as int, text@.len() as int) == text@.skip(i as int));
    slice_subrange(text, i, text.len())
}

/// `text` without the white space that it ends with.
pub(crate) fn trim_end_chars(text: &[char]) -> (trimmed: &[char])
    ensures
        trimmed@ == trim_end(text@),
{
    let mut n: usize = text.len();
    assert(text@.take(n as int) == text@);
    while n > 0 && text[n - 1].is_whitespace()
        invariant
            n <= text.len(),
            trim_end(text@) == trim_end(text@.take(n as int)),
        decreases n,
    {
        assert(text@.take(n as int).drop_last() == text@.take(n - 1));
        n -= 1;
    }
    assert(text@.subrange(0, n as int) == text@.take(n as int));
    slice_subrange(text, 0, n)
}

/// The text that bytes encode, without the white space that it ends with; none
/// where they encode no text.
pub open spec fn line_of(bytes: Seq<u8>) -> Option<Seq<char>> {
    if valid_utf8(bytes) {
        Some(trim_end(decode_utf8(bytes)))
    } else {
        None
    }
}

/// The text that `bytes` encode, without the white space that it ends with.
pub(crate) fn decode_line(bytes: &[u8]) -> (line: Option<String>)
    ensures
        match line {
            Some(line) => line_of(bytes@) == Some(line@),
            None => line_of(bytes@) is None,
        },
{
    match core::str::from_utf8(bytes) {
        Ok(text) => {
            proof {
                encode_utf8_decode_utf8(text@);
            }
            let chars = to_chars(text);
            Some(from_chars(trim_end_chars(chars.as_slice())))
        },
        Err(_) => None,
    }
}

/// Appends `n` in decimal.
pub(crate) fn push_decimal(out: &mut String, n: u64)
    ensures
        final(out)@ == old(out)@ + decimal(n as nat),
    decreases n,
{
    if n >= 10 {
        push_decimal(out, n / 10);
    }
    let digit: u8 = (n % 10) as u8;
    let c: char = (48u8 + digit) as char;
    out.push(c);
    assert(out@ =~= old(out)@ + decimal(n as nat));
}

/// A text contains whatever it was put together from.
pub proof fn law_a_text_contains_its_parts(before: Seq<char>, part: Seq<char>, after: Seq<char>)
    ensures
        contains(before + part + after, part),
{
    let text = before + part + after;
    let at = before.len() as int;
    assert(text.subrange(at, at + part.len()) =~= part);
    assert(occurs_at(text, part, at));
}

/// A text that contains a part can be taken apart around it.
pub proof fn law_what_is_contained_is_a_part(text: Seq<char>, part: Seq<char>)
    requires
        contains(text, part),
    ensures
        exists|before: Seq<char>, after: Seq<char>| text == #[trigger] (before + part + after),
{
    let i = choose|i: int| occurs_at(text, part, i);
    let (before, after) = (text.take(i), text.skip(i + part.len()));
    assert(text =~= before + text.subrange(i, i + part.len()) + after);
    assert(text == before + part + after);
}

/// What is found stands where it was found, and nowhere further left; what is
/// not found is not there.
pub proof fn law_the_leftmost_place_is_found(text: Seq<char>, part: Seq<char>)
    ensures
        find(text, part) matches Some(i) ==> {
            &&& 0 <= i <= text.len() - part.len()
            &&& text == text.take(i) + part + text.skip(i + part.len())
            &&& part.len() > 0 ==> !contains(text.take(i + part.len() - 1), part)
        },
        find(text, part) is None <==> !contains(text, part),
{
    lemma_find_first(text, part);
    if let Some(i) = find(text, part) {
        assert(text =~= text.take(i) + text.subrange(i, i + part.len()) + text.skip(i + part.len()));
        let start = text.take(i + part.len() - 1);
        if part.len() > 0 && contains(start, part) {
            let j = choose|j: int| occurs_at(start, part, j);
            assert(start.subrange(j, j + part.len()) =~= text.subrange(j, j + part.len()));
            assert(occurs_at(text, part, j));
        }
    }
}

/// Trimming the start takes off white space, and nothing else, as far as there
/// is any.
pub proof fn law_the_start_is_trimmed(text: Seq<char>)
    ensures
        ({
            let trimmed = trim_start(text);
            let n = text.len() - trimmed.len();
            &&& 0 <= n
            &&& trimmed == text.skip(n)
            &&& forall|i: int| 0 <= i < n ==> is_white_space(#[trigger] text[i])
            &&& trimmed.len() > 0 ==> !is_white_space(trimmed[0])
        }),
    decreases text.len(),
{
    if text.len() > 0 && is_white_space(text[0]) {
        let rest = text.skip(1);
        law_the_start_is_trimmed(rest);
        let n = text.len() - trim_start(text).len();
        assert(trim_start(text) == text.skip(n));
        assert forall|i: int| 0 <= i < n implies is_white_space(#[trigger] text[i]) by {
            if i > 0 {
                assert(is_white_space(rest[i - 1]));
            }
        }
    } else {
        assert(text.skip(0) == text);
    }
}

/// Trimming the end takes off white space, and nothing else, as far as there is
/// any.
pub proof fn law_the_end_is_trimmed(text: Seq<char>)
    ensures
        ({
            let trimmed = trim_end(text);
            &&& trimmed.len() <= text.len()
            &&& trimmed == text.take(trimmed.len() as int)
            &&& forall|i: int| trimmed.len() <= i < text.len() ==> is_white_space(#[trigger] text[i])
            &&& trimmed.len() > 0 ==> !is_white_space(trimmed.last())
        }),
    decreases text.len(),
{
    if text.len() > 0 && is_white_space(text.last()) {
        let rest = text.drop_last();
        law_the_end_is_trimmed(rest);
        let n = trim_end(text).len();
        assert(trim_end(text) == text.take(n as int));
        assert forall|i: int| n <= i < text.len() implies is_white_space(#[trigger] text[i]) by {
            if i < rest.len() {
                assert(is_white_space(rest[i]));
            }
        }
    } else {
        assert(text.take(text.len() as int) == text);
    }
}

} // verus!
