//! From a raw log line to what is shown: the text without terminal escape
//! sequences, and the colour its leading tag asks for.

use crate::text::{from_chars, to_chars};
use vstd::prelude::*;

verus! {

/// The colours a line can be shown in.
#[derive(Clone, Copy, Debug, PartialEq, Eq, Structural)]
pub enum Color {
    Rgb(u8, u8, u8),
    Red,
    Green,
    Cyan,
    Yellow,
    Magenta,
    LightBlue,
    LightGreen,
    LightYellow,
    White,
}

/// The character that opens an escape sequence.
pub const ESCAPE: char = '\x1b';

/// Whether `c` is a letter of the ASCII alphabet: what ends an escape
/// sequence.
pub open spec fn is_ascii_letter(c: char) -> bool {
    let u = c as u32;
    (0x41 <= u <= 0x5A) || (0x61 <= u <= 0x7A)
}

/// Whether `s` begins with an escape sequence: the escape character
/// followed by `[`.
pub open spec fn opens_sequence(s: Seq<char>) -> bool {
    s.len() > 1 && s[0] == ESCAPE && s[1] == '['
}

/// What is left of `s` once escape sequences are taken out, reading from a
/// position that lies inside a sequence (`inside`) or outside of one.
///
/// A sequence opens with the escape character followed by `[` and runs
/// through the next ASCII letter, or to the end if there is none. Every
/// character outside a sequence is kept, an escape character that no `[`
/// follows too.
pub open spec fn strip_from(s: Seq<char>, inside: bool) -> Seq<char>
    decreases s.len(),
{
    if s.len() == 0 {
        Seq::empty()
    } else if inside {
        strip_from(s.skip(1), !is_ascii_letter(s[0]))
    } else if opens_sequence(s) {
        strip_from(s.skip(2), true)
    } else {
        seq![s[0]] + strip_from(s.skip(1), false)
    }
}

/// `s` without its escape sequences.
pub open spec fn strip_ansi(s: Seq<char>) -> Seq<char> {
    strip_from(s, false)
}

/// The accent colour of the banner tag that `s` begins with, if it begins
/// with one.
pub open spec fn banner_color(s: Seq<char>) -> Option<Color> {
    if "[RUST1]"@.is_prefix_of(s) {
        Some(Color::Rgb(204, 85, 0))
    } else if "[RUST2]"@.is_prefix_of(s) {
        Some(Color::Rgb(255, 102, 0))
    } else if "[RUST3]"@.is_prefix_of(s) {
        Some(Color::Rgb(255, 136, 0))
    } else if "[RUST4]"@.is_prefix_of(s) {
        Some(Color::Rgb(204, 102, 0))
    } else if "[RUST5]"@.is_prefix_of(s) {
        Some(Color::Rgb(170, 85, 0))
    } else if "[RUST6]"@.is_prefix_of(s) {
        Some(Color::Rgb(136, 68, 0))
    } else if "[RUST7]"@.is_prefix_of(s) {
        Some(Color::Rgb(119, 51, 0))
    } else {
        None
    }
}

/// The colour of a line that begins with no banner tag: the first rule that
/// matches decides.
pub open spec fn plain_color(s: Seq<char>) -> Color {
    if "[ERROR]"@.is_prefix_of(s) || "\u{2717}"@.is_prefix_of(s) {
        Color::Red
    } else if "[\u{2713}]"@.is_prefix_of(s) || "[SUCCESS]"@.is_prefix_of(s) {
        Color::Green
    } else if "[INFO]"@.is_prefix_of(s) || "\u{2139}"@.is_prefix_of(s) {
        Color::Cyan
    } else if "[WARNING]"@.is_prefix_of(s) || "\u{26a0}"@.is_prefix_of(s) {
        Color::Yellow
    } else if "[DEBUG]"@.is_prefix_of(s) {
        Color::Magenta
    } else if "Username:"@.is_prefix_of(s) || "UUID:"@.is_prefix_of(s) {
        Color::LightBlue
    } else if "Connecting"@.is_prefix_of(s) || "Starting"@.is_prefix_of(s) {
        Color::LightGreen
    } else if "Waiting"@.is_prefix_of(s) || "Loading"@.is_prefix_of(s) {
        Color::LightYellow
    } else {
        Color::White
    }
}

/// The colour a line is shown in.
pub open spec fn message_color(s: Seq<char>) -> Color {
    match banner_color(s) {
        Some(color) => color,
        None => plain_color(s),
    }
}

/// The text a line is shown as: the line as it stands, tag and all.
pub open spec fn message_text(s: Seq<char>) -> Seq<char> {
    s
}

/// Whether `s` holds no escape character.
pub open spec fn no_escape(s: Seq<char>) -> bool {
    forall|i: int| 0 <= i < s.len() ==> #[trigger] s[i] != ESCAPE
}

/// Whether `s` holds no escape sequence: nowhere in it is an escape
/// character followed by `[`.
pub open spec fn no_sequence(s: Seq<char>) -> bool {
    forall|i: int| 0 <= i < s.len() - 1 ==> !(#[trigger] s[i] == ESCAPE && s[i + 1] == '[')
}

/// Whether every escape character in `s` is followed by `[`.
pub open spec fn every_escape_opens(s: Seq<char>) -> bool {
    forall|i: int|
        0 <= i < s.len() && #[trigger] s[i] == ESCAPE ==> i + 1 < s.len() && s[i + 1] == '['
}

/// Where every escape character is followed by `[`, what stripping leaves
/// holds no escape character.
pub proof fn lemma_strip_has_no_escape(s: Seq<char>, inside: bool)
    requires
        every_escape_opens(s),
    ensures
        no_escape(strip_from(s, inside)),
    decreases s.len(),
{
    if s.len() == 0 {
    } else if inside {
        let rest = s.skip(1);
        assert(every_escape_opens(rest)) by {
            assert forall|i: int| 0 <= i < rest.len() && #[trigger] rest[i] == ESCAPE implies i + 1
                < rest.len() && rest[i + 1] == '[' by {
                assert(s[i + 1] == ESCAPE);
            }
        }
        lemma_strip_has_no_escape(rest, !is_ascii_letter(s[0]));
    } else if opens_sequence(s) {
        let rest = s.skip(2);
        assert(every_escape_opens(rest)) by {
            assert forall|i: int| 0 <= i < rest.len() && #[trigger] rest[i] == ESCAPE implies i + 1
                < rest.len() && rest[i + 1] == '[' by {
                assert(s[i + 2] == ESCAPE);
            }
        }
        lemma_strip_has_no_escape(rest, true);
    } else {
        let rest = s.skip(1);
        assert(s[0] != ESCAPE) by {
            if s[0] == ESCAPE {
                assert(s.len() > 1 && s[1] == '[');
            }
        }
        assert(every_escape_opens(rest)) by {
            assert forall|i: int| 0 <= i < rest.len() && #[trigger] rest[i] == ESCAPE implies i + 1
                < rest.len() && rest[i + 1] == '[' by {
                assert(s[i + 1] == ESCAPE);
            }
        }
        lemma_strip_has_no_escape(rest, false);
        let kept = strip_from(rest, false);
        assert forall|i: int| 0 <= i < strip_from(s, false).len() implies #[trigger] strip_from(
            s,
            false,
        )[i] != ESCAPE by {
            if i > 0 {
                assert(strip_from(s, false)[i] == kept[i - 1]);
            }
        }
    }
}

/// A line without escape characters holds no escape sequence.
pub proof fn lemma_no_escape_no_sequence(s: Seq<char>)
    requires
        no_escape(s),
    ensures
        no_sequence(s),
{
}

/// Stripping changes nothing in a line that holds no escape sequence.
pub proof fn lemma_strip_keeps_plain(s: Seq<char>)
    requires
        no_sequence(s),
    ensures
        strip_ansi(s) == s,
    decreases s.len(),
{
    if s.len() > 0 {
        assert(!opens_sequence(s)) by {
            if s.len() > 1 {
                assert(!(s[0] == ESCAPE && s[0int + 1] == '['));
            }
        }
        let rest = s.skip(1);
        assert forall|i: int| 0 <= i < rest.len() - 1 implies !(#[trigger] rest[i] == ESCAPE
            && rest[i + 1] == '[') by {
            assert(!(s[i + 1] == ESCAPE && s[i + 1 + 1] == '['));
        }
        lemma_strip_keeps_plain(rest);
        assert(seq![s[0]] + rest =~= s);
    }
}

/// Where every escape character is followed by `[`, stripping twice is
/// stripping once.
pub proof fn lemma_strip_idempotent(s: Seq<char>)
    requires
        every_escape_opens(s),
    ensures
        strip_ansi(strip_ansi(s)) == strip_ansi(s),
{
    lemma_strip_has_no_escape(s, false);
    lemma_no_escape_no_sequence(strip_ansi(s));
    lemma_strip_keeps_plain(strip_ansi(s));
}

/// Parsing what parsing has shown gives the same text and the same colour
/// again, for every line.
pub proof fn lemma_parse_idempotent(s: Seq<char>)
    ensures
        message_text(message_text(s)) == message_text(s),
        message_color(message_text(s)) == message_color(s),
{
}

/// Classifying what classification has shown gives the same text and the
/// same colour again, wherever what was shown holds no escape sequence.
pub proof fn lemma_classify_idempotent(raw: Seq<char>)
    requires
        no_sequence(message_text(strip_ansi(raw))),
    ensures
        message_text(strip_ansi(message_text(strip_ansi(raw)))) == message_text(strip_ansi(raw)),
        message_color(strip_ansi(message_text(strip_ansi(raw)))) == message_color(strip_ansi(raw)),
{
    lemma_strip_keeps_plain(strip_ansi(raw));
}

/// What is shown of a raw line holds no escape sequence where every escape
/// character of the line is followed by `[`, and also where the line holds
/// no escape sequence to begin with.
pub proof fn lemma_shown_text_is_plain(raw: Seq<char>)
    requires
        every_escape_opens(raw) || no_sequence(raw),
    ensures
        no_sequence(message_text(strip_ansi(raw))),
{
    if every_escape_opens(raw) {
        lemma_strip_has_no_escape(raw, false);
        lemma_no_escape_no_sequence(strip_ansi(raw));
    } else {
        lemma_strip_keeps_plain(raw);
    }
}

/// Decides `is_ascii_letter`.
fn char_is_ascii_letter(c: char) -> (b: bool)
    ensures
        b == is_ascii_letter(c),
{
    let u: u32 = c as u32;
    (0x41 <= u && u <= 0x5A) || (0x61 <= u && u <= 0x7A)
}

/// Removes the escape sequences from `s`.
pub fn strip_ansi_codes(s: &str) -> (out: String)
    ensures
        out@ == strip_ansi(s@),
{
    let chars = to_chars(s);
    from_chars(&strip_chars(&chars))
}

/// Removes the escape sequences from `chars`.
pub fn strip_chars(chars: &Vec<char>) -> (out: Vec<char>)
    ensures
        out@ == strip_ansi(chars@),
{
    let n: usize = chars.len();
    let mut out: Vec<char> = Vec::new();
    let mut inside = false;
    let mut i: usize = 0;
    assert(chars@.skip(0) =~= chars@);
    while i < n
        invariant
            n == chars.len(),
            i <= n,
            strip_ansi(chars@) == out@ + strip_from(chars@.skip(i as int), inside),
        decreases n - i,
    {
        let c = chars[i];
        let ghost rest = chars@.skip(i as int);
        assert(rest[0] == c);
        if inside {
            inside = !char_is_ascii_letter(c);
            assert(rest.skip(1) =~= chars@.skip(i + 1));
            i += 1;
        } else if c == ESCAPE && i + 1 < n && chars[i + 1] == '[' {
            assert(rest[1] == chars@[i + 1]);
            assert(rest.skip(2) =~= chars@.skip(i + 2));
            inside = true;
            i += 2;
        } else {
            assert(!opens_sequence(rest)) by {
                if rest.len() > 1 {
                    assert(rest[1] == chars@[i + 1]);
                }
            }
            assert(rest.skip(1) =~= chars@.skip(i + 1));
            assert(out@ + (seq![c] + strip_from(rest.skip(1), false)) =~= out@.push(c)
                + strip_from(rest.skip(1), false));
            out.push(c);
            i += 1;
        }
    }
    assert(out@ + Seq::<char>::empty() =~= out@);
    out
}

/// Whether `chars` begins with `prefix`.
pub fn has_prefix(chars: &Vec<char>, prefix: &str) -> (b: bool)
    ensures
        b == prefix@.is_prefix_of(chars@),
{
    let mut i: usize = 0;
    let mut ok = true;
    for c in it: prefix.chars()
        invariant
            it.seq() == prefix@,
            ok ==> i == it.index() && i <= chars.len() && chars@.subrange(0, i as int)
                =~= prefix@.subrange(0, i as int),
            !ok ==> !prefix@.is_prefix_of(chars@),
    {
        if ok {
            if i < chars.len() && chars[i] == c {
                assert(chars@.subrange(0, i + 1) =~= chars@.subrange(0, i as int).push(c));
                assert(prefix@.subrange(0, i + 1) =~= prefix@.subrange(0, i as int).push(c));
                i += 1;
            } else {
                ok = false;
                assert(!prefix@.is_prefix_of(chars@)) by {
                    if prefix@.is_prefix_of(chars@) {
                        assert(chars@.subrange(0, prefix@.len() as int)[i as int] == prefix@[i as int]);
                    }
                }
            }
        }
    }
    proof {
        if ok {
            assert(prefix@.subrange(0, i as int) =~= prefix@);
        }
    }
    ok
}

/// The colour of a line that begins with no banner tag.
fn plain_color_of(chars: &Vec<char>) -> (color: Color)
    ensures
        color == plain_color(chars@),
{
    if has_prefix(chars, "[ERROR]") || has_prefix(chars, "\u{2717}") {
        Color::Red
    } else if has_prefix(chars, "[\u{2713}]") || has_prefix(chars, "[SUCCESS]") {
        Color::Green
    } else if has_prefix(chars, "[INFO]") || has_prefix(chars, "\u{2139}") {
        Color::Cyan
    } else if has_prefix(chars, "[WARNING]") || has_prefix(chars, "\u{26a0}") {
        Color::Yellow
    } else if has_prefix(chars, "[DEBUG]") {
        Color::Magenta
    } else if has_prefix(chars, "Username:") || has_prefix(chars, "UUID:") {
        Color::LightBlue
    } else if has_prefix(chars, "Connecting") || has_prefix(chars, "Starting") {
        Color::LightGreen
    } else if has_prefix(chars, "Waiting") || has_prefix(chars, "Loading") {
        Color::LightYellow
    } else {
        Color::White
    }
}

/// The colour that the line `chars` is shown in.
pub fn color_of(chars: &Vec<char>) -> (color: Color)
    ensures
        color == message_color(chars@),
{
    if has_prefix(chars, "[RUST1]") {
        Color::Rgb(204, 85, 0)
    } else if has_prefix(chars, "[RUST2]") {
        Color::Rgb(255, 102, 0)
    } else if has_prefix(chars, "[RUST3]") {
        Color::Rgb(255, 136, 0)
    } else if has_prefix(chars, "[RUST4]") {
        Color::Rgb(204, 102, 0)
    } else if has_prefix(chars, "[RUST5]") {
        Color::Rgb(170, 85, 0)
    } else if has_prefix(chars, "[RUST6]") {
        Color::Rgb(136, 68, 0)
    } else if has_prefix(chars, "[RUST7]") {
        Color::Rgb(119, 51, 0)
    } else {
        plain_color_of(chars)
    }
}

/// The text and the colour that the line `msg` is shown with: the line as
/// it stands, in the colour of the first rule that its start matches.
/// Escape sequences in it are not looked for.
pub fn parse_message_type(msg: &str) -> (shown: (String, Color))
    ensures
        shown.0@ == message_text(msg@),
        shown.1 == message_color(msg@),
{
    let chars = to_chars(msg);
    let color = color_of(&chars);
    (msg.to_owned(), color)
}

/// The text and the colour that the raw line `raw` is shown with: the line
/// without its escape sequences, in the colour that `parse_message_type`
/// gives that text.
pub fn classify(raw: &str) -> (shown: (String, Color))
    ensures
        shown.0@ == message_text(strip_ansi(raw@)),
        shown.1 == message_color(strip_ansi(raw@)),
{
    let chars = to_chars(raw);
    let cleaned = strip_chars(&chars);
    let color = color_of(&cleaned);
    (from_chars(&cleaned), color)
}

} // verus!
