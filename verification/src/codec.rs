//! The authorship codec.
//!
//! When the bot relays a submission it writes the author's identifier into
//! the text of its own public message, and that text is the only record of
//! who the author is. A submission message is laid out as a frame of three
//! fields at fixed positions:
//!
//! | field      | characters | content                                   |
//! |------------|------------|-------------------------------------------|
//! | prefix     | 0..3       | `<@!`                                     |
//! | identifier | 3..23      | twenty decimal digits, zero padded        |
//! | suffix     | 23..42     | `> just sent a meme!`                     |
//!
//! Anything may follow the frame. White space around the text is ignored.

use vstd::prelude::*;
use vstd::std_specs::iter::IteratorSpec;
use vstd::string::StringExecFns;
use crate::decimal::{
    fixed_digits, lemma_fixed_digits_shape, lemma_fixed_digits_value, parse_digits, parsed_u64,
    pow10, push_fixed_digits,
};

verus! {

/// Number of characters in the prefix field.
pub const PREFIX_LEN: usize = 3;

/// Number of digits in the identifier field.
pub const ID_WIDTH: usize = 20;

/// Number of characters in the suffix field.
pub const SUFFIX_LEN: usize = 19;

/// Number of characters in the whole frame.
pub const FRAME_LEN: usize = 42;

/// Why a text does not yield an author.
#[derive(Clone, Copy, Debug, PartialEq, Eq, Structural)]
pub enum CodecError {
    /// The text is shorter than a frame, or its prefix or suffix field does
    /// not hold the expected literal.
    NotASubmission,
    /// The frame is in place but the identifier field is not the decimal
    /// notation of an unsigned 64-bit number.
    MalformedIdentifier,
}

/// The literal that opens a frame.
pub open spec fn prefix() -> Seq<char> {
    seq!['<', '@', '!']
}

/// The literal that follows the identifier field.
pub open spec fn suffix() -> Seq<char> {
    seq![
        '>', ' ', 'j', 'u', 's', 't', ' ', 's', 'e', 'n', 't', ' ', 'a', ' ', 'm', 'e', 'm', 'e',
        '!',
    ]
}

/// Whether `c` is white space: a character with the Unicode property
/// `White_Space`.
pub open spec fn is_whitespace(c: char) -> bool {
    let u = c as u32;
    ||| 0x09 <= u <= 0x0D
    ||| u == 0x20
    ||| u == 0x85
    ||| u == 0xA0
    ||| u == 0x1680
    ||| 0x2000 <= u <= 0x200A
    ||| u == 0x2028
    ||| u == 0x2029
    ||| u == 0x202F
    ||| u == 0x205F
    ||| u == 0x3000
}

/// `s` without the white space at its start.
pub open spec fn trim_start(s: Seq<char>) -> Seq<char>
    decreases s.len(),
{
    if s.len() > 0 && is_whitespace(s.first()) {
        trim_start(s.drop_first())
    } else {
        s
    }
}

/// `s` without the white space at its end.
pub open spec fn trim_end(s: Seq<char>) -> Seq<char>
    decreases s.len(),
{
    if s.len() > 0 && is_whitespace(s.last()) {
        trim_end(s.drop_last())
    } else {
        s
    }
}

/// `s` without the white space at either end.
pub open spec fn trimmed(s: Seq<char>) -> Seq<char> {
    trim_end(trim_start(s))
}

/// The text that records `author` as the author of a submission.
pub open spec fn encoded(author: u64) -> Seq<char> {
    prefix() + fixed_digits(author as nat, ID_WIDTH as nat) + suffix()
}

/// Whether `body` starts with a frame: it is long enough, and its prefix and
/// suffix fields hold the two literals.
pub open spec fn is_framed(body: Seq<char>) -> bool {
    &&& body.len() >= FRAME_LEN
    &&& body.subrange(0, PREFIX_LEN as int) == prefix()
    &&& body.subrange(PREFIX_LEN + ID_WIDTH, FRAME_LEN as int) == suffix()
}

/// What a text yields: the author written in its frame, or the reason why
/// there is none.
pub open spec fn decoded(text: Seq<char>) -> Result<u64, CodecError> {
    let body = trimmed(text);
    if !is_framed(body) {
        Err(CodecError::NotASubmission)
    } else {
        match parsed_u64(body.subrange(PREFIX_LEN as int, PREFIX_LEN + ID_WIDTH)) {
            Some(author) => Ok(author),
            None => Err(CodecError::MalformedIdentifier),
        }
    }
}

/// Decoding what was encoded gives the author back, for every identifier.
pub proof fn lemma_decode_encode(author: u64)
    ensures
        decoded(encoded(author)) == Ok::<u64, CodecError>(author),
{
    let digits = fixed_digits(author as nat, ID_WIDTH as nat);
    let text = encoded(author);
    lemma_fixed_digits_shape(author as nat, ID_WIDTH as nat);
    assert(pow10(20) == 100000000000000000000) by {
        reveal_with_fuel(pow10, 21);
    }
    lemma_fixed_digits_value(author as nat, ID_WIDTH as nat);
    assert(text.len() == FRAME_LEN);
    assert(text.first() == '<');
    assert(text.last() == '!');
    assert(trimmed(text) == text);
    assert(text.subrange(0, PREFIX_LEN as int) =~= prefix());
    assert(text.subrange(PREFIX_LEN + ID_WIDTH, FRAME_LEN as int) =~= suffix());
    assert(text.subrange(PREFIX_LEN as int, PREFIX_LEN + ID_WIDTH) =~= digits);
}

/// Trimming the end keeps everything up to the last character that is no
/// white space.
pub proof fn lemma_trim_end_keeps(s: Seq<char>, k: int)
    requires
        0 <= k < s.len(),
        !is_whitespace(s[k]),
    ensures
        k < trim_end(s).len() <= s.len(),
        trim_end(s) == s.subrange(0, trim_end(s).len() as int),
    decreases s.len(),
{
    if is_whitespace(s.last()) {
        lemma_trim_end_keeps(s.drop_last(), k);
        lemma_trim_end_shortens(s.drop_last());
        let kept = trim_end(s.drop_last());
        assert(s.drop_last().subrange(0, kept.len() as int) =~= s.subrange(0, kept.len() as int));
    } else {
        assert(s.subrange(0, s.len() as int) =~= s);
    }
}

/// What follows the frame is of no account: an encoded author is read back
/// whatever text is appended.
pub proof fn lemma_decode_ignores_tail(author: u64, tail: Seq<char>)
    ensures
        decoded(encoded(author) + tail) == Ok::<u64, CodecError>(author),
{
    let frame = encoded(author);
    let text = frame + tail;
    lemma_decode_encode(author);
    lemma_fixed_digits_shape(author as nat, ID_WIDTH as nat);
    assert(frame.len() == FRAME_LEN);
    assert(text.first() == '<');
    assert(trim_start(text) == text);
    assert(text[FRAME_LEN - 1] == '!');
    lemma_trim_end_keeps(text, FRAME_LEN - 1);
    let body = trimmed(text);
    assert(body == text.subrange(0, body.len() as int));
    assert forall|i: int| 0 <= i < FRAME_LEN implies body[i] == frame[i] by {
        assert(body[i] == text[i]);
    }
    assert(body.subrange(0, PREFIX_LEN as int) =~= frame.subrange(0, PREFIX_LEN as int));
    assert(body.subrange(PREFIX_LEN + ID_WIDTH, FRAME_LEN as int) =~= frame.subrange(
        PREFIX_LEN + ID_WIDTH,
        FRAME_LEN as int,
    ));
    assert(body.subrange(PREFIX_LEN as int, PREFIX_LEN + ID_WIDTH) =~= frame.subrange(
        PREFIX_LEN as int,
        PREFIX_LEN + ID_WIDTH,
    ));
}

/// A text that is too short for a frame once trimmed, or whose prefix or
/// suffix field holds something else, is no submission.
pub proof fn lemma_unframed_is_no_submission(text: Seq<char>)
    requires
        trimmed(text).len() < FRAME_LEN || trimmed(text).subrange(0, PREFIX_LEN as int) != prefix()
            || trimmed(text).subrange(PREFIX_LEN + ID_WIDTH, FRAME_LEN as int) != suffix(),
    ensures
        decoded(text) == Err::<u64, CodecError>(CodecError::NotASubmission),
{
}

/// Trimming never makes a text longer, so a text shorter than a frame is no
/// submission whatever it holds.
pub proof fn lemma_short_is_no_submission(text: Seq<char>)
    requires
        text.len() < FRAME_LEN,
    ensures
        decoded(text) == Err::<u64, CodecError>(CodecError::NotASubmission),
{
    lemma_trim_start_shortens(text);
    lemma_trim_end_shortens(trim_start(text));
}

/// Trimming the start leaves a text that is no longer than the text it was made of.
pub proof fn lemma_trim_start_shortens(s: Seq<char>)
    ensures
        trim_start(s).len() <= s.len(),
    decreases s.len(),
{
    if s.len() > 0 && is_whitespace(s.first()) {
        lemma_trim_start_shortens(s.drop_first());
    }
}

/// Trimming the end leaves a text that is no longer than the text it was made of.
pub proof fn lemma_trim_end_shortens(s: Seq<char>)
    ensures
        trim_end(s).len() <= s.len(),
    decreases s.len(),
{
    if s.len() > 0 && is_whitespace(s.last()) {
        lemma_trim_end_shortens(s.drop_last());
    }
}

/// The literal that opens a frame, as a text.
fn prefix_text() -> (text: &'static str)
    ensures
        text@ == prefix(),
{
    proof {
        reveal_strlit("<@!");
    }
    assert("<@!"@ =~= prefix());
    "<@!"
}

/// The literal that follows the identifier field, as a text.
fn suffix_text() -> (text: &'static str)
    ensures
        text@ == suffix(),
{
    proof {
        reveal_strlit("> just sent a meme!");
    }
    assert("> just sent a meme!"@ =~= suffix());
    "> just sent a meme!"
}

/// Writes the text that records `author_id` as the author of a submission.
pub fn encode(author_id: u64) -> (text: String)
    ensures
        text@ == encoded(author_id),
        decoded(text@) == Ok::<u64, CodecError>(author_id),
{
    proof {
        lemma_decode_encode(author_id);
    }
    let mut text = String::from_str(prefix_text());
    push_fixed_digits(&mut text, author_id, 20);
    text.append(suffix_text());
    text
}

/// Whether `c` is white space.
pub fn is_space(c: char) -> (space: bool)
    ensures
        space == is_whitespace(c),
{
    let u: u32 = c as u32;
    (0x09 <= u && u <= 0x0D) || u == 0x20 || u == 0x85 || u == 0xA0 || u == 0x1680 || (0x2000 <= u
        && u <= 0x200A) || u == 0x2028 || u == 0x2029 || u == 0x202F || u == 0x205F || u == 0x3000
}

/// The characters of `text`, in order.
pub fn chars_of(text: &str) -> (chars: Vec<char>)
    ensures
        chars@ == text@,
{
    let mut chars: Vec<char> = Vec::new();
    let mut rest = text.chars();
    loop
        invariant
            chars@ + rest.remaining() == text@,
            rest.decrease() is Some,
        decreases rest.decrease()->0,
    {
        let ghost before = rest.remaining();
        match rest.next() {
            Some(c) => {
                chars.push(c);
                assert(chars@ + rest.remaining() =~= text@) by {
                    assert(before =~= seq![c] + before.drop_first());
                }
            },
            None => {
                assert(chars@ =~= text@);
                return chars;
            },
        }
    }
}

/// Where the trimmed text lies in `chars`: the bounds `(from, to)` with
/// `chars[from..to]` the text without the white space at either end.
pub fn trim_bounds(chars: &Vec<char>) -> (bounds: (usize, usize))
    ensures
        bounds.0 <= bounds.1 <= chars.len(),
        chars@.subrange(bounds.0 as int, bounds.1 as int) == trimmed(chars@),
{
    let len = chars.len();
    let mut from: usize = 0;
    assert(chars@.subrange(0, len as int) =~= chars@);
    while from < len && is_space(chars[from])
        invariant
            from <= len == chars.len(),
            trim_start(chars@) == trim_start(chars@.subrange(from as int, len as int)),
        decreases len - from,
    {
        assert(chars@.subrange(from as int, len as int).drop_first() =~= chars@.subrange(
            from + 1,
            len as int,
        ));
        from = from + 1;
    }
    let ghost tail = chars@.subrange(from as int, len as int);
    assert(trim_start(chars@) == tail);
    let mut to: usize = len;
    while to > from && is_space(chars[to - 1])
        invariant
            from <= to <= len == chars.len(),
            trim_end(tail) == trim_end(chars@.subrange(from as int, to as int)),
            tail == chars@.subrange(from as int, len as int),
        decreases to - from,
    {
        assert(chars@.subrange(from as int, to as int).drop_last() =~= chars@.subrange(
            from as int,
            to - 1,
        ));
        to = to - 1;
    }
    (from, to)
}

/// Whether `pattern` stands in `chars` at position `at`.
pub fn matches_at(chars: &Vec<char>, at: usize, pattern: &Vec<char>) -> (same: bool)
    requires
        at + pattern.len() <= chars.len(),
    ensures
        same == (chars@.subrange(at as int, at + pattern.len()) == pattern@),
{
    let ghost field = chars@.subrange(at as int, at + pattern.len());
    let mut i: usize = 0;
    while i < pattern.len()
        invariant
            i <= pattern.len(),
            at + pattern.len() <= chars.len(),
            field == chars@.subrange(at as int, at + pattern.len()),
            forall|j: int| 0 <= j < i ==> field[j] == pattern[j],
        decreases pattern.len() - i,
    {
        if chars[at + i] != pattern[i] {
            assert(field[i as int] != pattern[i as int]);
            return false;
        }
        i = i + 1;
    }
    assert(field =~= pattern@);
    true
}

/// Reads the author out of a message text.
///
/// The text is trimmed first. It is a submission if a frame stands at its
/// start; what follows the frame is not looked at.
pub fn decode(text: &str) -> (author: Result<u64, CodecError>)
    ensures
        author == decoded(text@),
        text@.len() < FRAME_LEN ==> author == Err::<u64, CodecError>(CodecError::NotASubmission),
        !is_framed(trimmed(text@)) ==> author == Err::<u64, CodecError>(
            CodecError::NotASubmission,
        ),
{
    proof {
        if text@.len() < FRAME_LEN {
            lemma_short_is_no_submission(text@);
        }
    }
    let chars = chars_of(text);
    let (from, to) = trim_bounds(&chars);
    if to - from < FRAME_LEN {
        return Err(CodecError::NotASubmission);
    }
    let ghost body = trimmed(text@);
    let opening = chars_of(prefix_text());
    let closing = chars_of(suffix_text());
    let id_from = from + PREFIX_LEN;
    let id_to = id_from + ID_WIDTH;
    assert(chars@.subrange(from as int, from + PREFIX_LEN) =~= body.subrange(0, PREFIX_LEN as int));
    assert(chars@.subrange(id_to as int, id_to + SUFFIX_LEN) =~= body.subrange(
        PREFIX_LEN + ID_WIDTH,
        FRAME_LEN as int,
    ));
    assert(chars@.subrange(id_from as int, id_to as int) =~= body.subrange(
        PREFIX_LEN as int,
        PREFIX_LEN + ID_WIDTH,
    ));
    if !matches_at(&chars, from, &opening) {
        return Err(CodecError::NotASubmission);
    }
    if !matches_at(&chars, id_to, &closing) {
        return Err(CodecError::NotASubmission);
    }
    match parse_digits(&chars, id_from, id_to) {
        Some(author) => Ok(author),
        None => Err(CodecError::MalformedIdentifier),
    }
}

} // verus!
