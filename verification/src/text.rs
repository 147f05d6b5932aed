//! Conversions between strings and sequences of characters.

use vstd::prelude::*;

verus! {

/// Appends one character to a string.
///
/// Trusted: stands for `String::push`, which the standard library documents
/// as appending the given character to the end of the string.
#[verifier::external_body]
pub(crate) fn push_char(s: &mut String, c: char)
    ensures
        final(s)@ == old(s)@.push(c),
{
    s.push(c);
}

/// The characters of `s`, in order.
pub fn to_chars(s: &str) -> (out: Vec<char>)
    ensures
        out@ == s@,
{
    let mut out: Vec<char> = Vec::new();
    for c in it: s.chars()
        invariant
            out@ == it.seq().take(it.index()),
            it.seq() == s@,
    {
        out.push(c);
    }
    out
}

/// The string whose characters are `chars`, in order.
pub fn from_chars(chars: &Vec<char>) -> (out: String)
    ensures
        out@ == chars@,
{
    let mut out = String::new();
    let mut i: usize = 0;
    while i < chars.len()
        invariant
            i <= chars.len(),
            out@ == chars@.take(i as int),
        decreases chars.len() - i,
    {
        push_char(&mut out, chars[i]);
        i += 1;
    }
    out
}

/// Whether `c` is one of the characters that Unicode counts as white
/// space: the characters that trimming removes.
pub open spec fn is_space(c: char) -> bool {
    let u = c as u32;
    ||| 0x09 <= u <= 0x0D
    ||| u == 0x20
    ||| u == 0x85
    ||| u == 0xA0
    ||| u == 0x1680
    ||| 0x2000 <= u <= 0x200A
    ||| u == 0x2028
    ||| u == 0x2029
    ||| u == 0x202F
    ||| u == 0x205F
    ||| u == 0x3000
}

/// A line is blank when it holds nothing but white space.
pub open spec fn is_blank(s: Seq<char>) -> bool {
    forall|i: int| 0 <= i < s.len() ==> is_space(#[trigger] s[i])
}

/// `s` without its leading white space.
pub open spec fn trim_start(s: Seq<char>) -> Seq<char>
    decreases s.len(),
{
    if s.len() > 0 && is_space(s[0]) {
        trim_start(s.skip(1))
    } else {
        s
    }
}

/// `s` without its trailing white space.
pub open spec fn trim_end(s: Seq<char>) -> Seq<char>
    decreases s.len(),
{
    if s.len() > 0 && is_space(s.last()) {
        trim_end(s.drop_last())
    } else {
        s
    }
}

/// `s` without the white space at either end.
pub open spec fn trimmed(s: Seq<char>) -> Seq<char> {
    trim_end(trim_start(s))
}

/// Decides `is_space`.
pub fn char_is_space(c: char) -> (b: bool)
    ensures
        b == is_space(c),
{
    let u: u32 = c as u32;
    (0x09 <= u && u <= 0x0D) || u == 0x20 || u == 0x85 || u == 0xA0 || u == 0x1680 || (0x2000 <= u
        && u <= 0x200A) || u == 0x2028 || u == 0x2029 || u == 0x202F || u == 0x205F || u == 0x3000
}

/// Decides `is_blank`.
pub fn chars_are_blank(chars: &Vec<char>) -> (b: bool)
    ensures
        b == is_blank(chars@),
{
    let mut i: usize = 0;
    while i < chars.len()
        invariant
            i <= chars.len(),
            forall|j: int| 0 <= j < i ==> is_space(#[trigger] chars@[j]),
        decreases chars.len() - i,
    {
        if !char_is_space(chars[i]) {
            return false;
        }
        i += 1;
    }
    true
}

/// A leading run of white space can be dropped before trimming the start.
proof fn lemma_trim_start_skip(s: Seq<char>, k: int)
    requires
        0 <= k <= s.len(),
        forall|j: int| 0 <= j < k ==> is_space(#[trigger] s[j]),
    ensures
        trim_start(s) == trim_start(s.skip(k)),
    decreases k,
{
    if k > 0 {
        assert(is_space(s[0]));
        let t = s.skip(1);
        assert forall|j: int| 0 <= j < k - 1 implies is_space(#[trigger] t[j]) by {
            assert(t[j] == s[j + 1]);
        }
        lemma_trim_start_skip(t, k - 1);
        assert(t.skip(k - 1) =~= s.skip(k));
    } else {
        assert(s.skip(0) =~= s);
    }
}

/// A trailing run of white space can be dropped before trimming the end.
proof fn lemma_trim_end_take(s: Seq<char>, k: int)
    requires
        0 <= k <= s.len(),
        forall|j: int| k <= j < s.len() ==> is_space(#[trigger] s[j]),
    ensures
        trim_end(s) == trim_end(s.take(k)),
    decreases s.len() - k,
{
    if k < s.len() {
        assert(is_space(s.last()));
        let t = s.drop_last();
        assert forall|j: int| k <= j < t.len() implies is_space(#[trigger] t[j]) by {
            assert(t[j] == s[j]);
        }
        lemma_trim_end_take(t, k);
        assert(t.take(k) =~= s.take(k));
    } else {
        assert(s.take(k) =~= s);
    }
}

/// Trimming the start leaves nothing exactly of a blank line, and otherwise
/// something that begins with a character that is no white space.
pub proof fn lemma_trim_start_shape(s: Seq<char>)
    ensures
        trim_start(s).len() == 0 <==> is_blank(s),
        trim_start(s).len() > 0 ==> !is_space(trim_start(s)[0]),
    decreases s.len(),
{
    if s.len() > 0 && is_space(s[0]) {
        let t = s.skip(1);
        lemma_trim_start_shape(t);
        if is_blank(t) {
            assert forall|i: int| 0 <= i < s.len() implies is_space(#[trigger] s[i]) by {
                if i > 0 {
                    assert(s[i] == t[i - 1]);
                }
            }
        }
        if is_blank(s) {
            assert forall|i: int| 0 <= i < t.len() implies is_space(#[trigger] t[i]) by {
                assert(t[i] == s[i + 1]);
            }
        }
    } else if s.len() > 0 {
        assert(!is_space(s[0]));
    }
}

/// Trimming the end leaves something of a line that begins with a
/// character that is no white space.
pub proof fn lemma_trim_end_keeps_start(s: Seq<char>)
    requires
        s.len() > 0,
        !is_space(s[0]),
    ensures
        trim_end(s).len() > 0,
    decreases s.len(),
{
    if is_space(s.last()) {
        assert(s.len() > 1);
        let t = s.drop_last();
        assert(t[0] == s[0]);
        lemma_trim_end_keeps_start(t);
    }
}

/// A line is blank exactly when trimming leaves nothing of it.
pub proof fn lemma_blank_iff_trimmed_empty(s: Seq<char>)
    ensures
        is_blank(s) <==> trimmed(s).len() == 0,
{
    lemma_trim_start_shape(s);
    if trim_start(s).len() > 0 {
        lemma_trim_end_keeps_start(trim_start(s));
    }
}

/// The characters of `chars` without the white space at either end.
pub fn trim_chars(chars: &Vec<char>) -> (out: Vec<char>)
    ensures
        out@ == trimmed(chars@),
{
    let n: usize = chars.len();
    let mut a: usize = 0;
    while a < n && char_is_space(chars[a])
        invariant
            n == chars.len(),
            a <= n,
            forall|j: int| 0 <= j < a ==> is_space(#[trigger] chars@[j]),
        decreases n - a,
    {
        a += 1;
    }
    let mut b: usize = n;
    while b > a && char_is_space(chars[b - 1])
        invariant
            n == chars.len(),
            a <= b <= n,
            forall|j: int| b <= j < n ==> is_space(#[trigger] chars@[j]),
        decreases b,
    {
        b -= 1;
    }
    let mut out: Vec<char> = Vec::new();
    let mut i: usize = a;
    while i < b
        invariant
            a <= i <= b <= n,
            n == chars.len(),
            out@ == chars@.subrange(a as int, i as int),
        decreases b - i,
    {
        out.push(chars[i]);
        assert(chars@.subrange(a as int, i as int).push(chars@[i as int]) =~= chars@.subrange(
            a as int,
            i + 1,
        ));
        i += 1;
    }
    proof {
        let s = chars@;
        let t = s.skip(a as int);
        lemma_trim_start_skip(s, a as int);
        assert(trim_start(t) == t) by {
            if a < n {
                assert(t[0] == s[a as int]);
            }
        }
        assert forall|j: int| b - a <= j < t.len() implies is_space(#[trigger] t[j]) by {
            assert(t[j] == s[j + a]);
        }
        lemma_trim_end_take(t, b - a);
        let r = t.take(b - a);
        assert(r =~= s.subrange(a as int, b as int));
        assert(trim_end(r) == r) by {
            if b > a {
                assert(r.last() == s[b - 1]);
            }
        }
    }
    out
}

/// The position of the first line feed in `s`, or the length of `s` if it
/// holds none.
pub open spec fn first_newline(s: Seq<char>) -> nat
    decreases s.len(),
{
    if s.len() == 0 || s[0] == '\n' {
        0
    } else {
        1 + first_newline(s.skip(1))
    }
}

/// `line` without one trailing carriage return, if it ends in one.
pub open spec fn chomp_cr(line: Seq<char>) -> Seq<char> {
    if line.len() > 0 && line.last() == '\r' {
        line.drop_last()
    } else {
        line
    }
}

/// The lines of `s`. A line ends at a line feed; the line feed, and a
/// carriage return directly before it, belong to no line. What follows the
/// last line feed is a line of its own unless it is empty.
pub open spec fn lines_of(s: Seq<char>) -> Seq<Seq<char>>
    decreases s.len(),
{
    if s.len() == 0 {
        Seq::empty()
    } else {
        let k = first_newline(s) as int;
        if k >= s.len() {
            seq![s]
        } else {
            seq![chomp_cr(s.take(k))] + lines_of(s.skip(k + 1))
        }
    }
}

/// Whether `line` holds no line feed.
pub open spec fn no_newline(line: Seq<char>) -> bool {
    forall|i: int| 0 <= i < line.len() ==> #[trigger] line[i] != '\n'
}

/// `first_newline` is the least position that holds a line feed.
pub proof fn lemma_first_newline(s: Seq<char>, k: int)
    requires
        0 <= k <= s.len(),
        forall|j: int| 0 <= j < k ==> #[trigger] s[j] != '\n',
        k < s.len() ==> s[k] == '\n',
    ensures
        first_newline(s) == k,
    decreases k,
{
    if k > 0 {
        let t = s.skip(1);
        assert(s[0] != '\n');
        assert forall|j: int| 0 <= j < k - 1 implies #[trigger] t[j] != '\n' by {
            assert(t[j] == s[j + 1]);
        }
        if k < s.len() {
            assert(t[k - 1] == s[k]);
        }
        lemma_first_newline(t, k - 1);
    }
}

/// `first_newline` stays within `s`, and nothing before it is a line feed.
pub proof fn lemma_first_newline_bounds(s: Seq<char>)
    ensures
        0 <= first_newline(s) <= s.len(),
        no_newline(s.take(first_newline(s) as int)),
        first_newline(s) < s.len() ==> s[first_newline(s) as int] == '\n',
    decreases s.len(),
{
    if s.len() == 0 || s[0] == '\n' {
    } else {
        let t = s.skip(1);
        lemma_first_newline_bounds(t);
        let k = first_newline(s) as int;
        assert forall|i: int| 0 <= i < k implies #[trigger] s.take(k)[i] != '\n' by {
            if i > 0 {
                assert(t.take(k - 1)[i - 1] == s[i]);
            }
        }
        if k < s.len() {
            assert(t[k - 1] == s[k]);
        }
    }
}

/// No line of `lines_of(s)` holds a line feed.
pub proof fn lemma_lines_have_no_newline(s: Seq<char>)
    ensures
        forall|i: int| 0 <= i < lines_of(s).len() ==> no_newline(#[trigger] lines_of(s)[i]),
    decreases s.len(),
{
    if s.len() > 0 {
        lemma_first_newline_bounds(s);
        let k = first_newline(s) as int;
        if k >= s.len() {
            assert(s.take(k) =~= s);
        } else {
            let head = chomp_cr(s.take(k));
            let rest = lines_of(s.skip(k + 1));
            lemma_lines_have_no_newline(s.skip(k + 1));
            assert(no_newline(head)) by {
                assert forall|i: int| 0 <= i < head.len() implies #[trigger] head[i] != '\n' by {
                    assert(head[i] == s.take(k)[i]);
                }
            }
            assert forall|i: int| 0 <= i < lines_of(s).len() implies no_newline(
                #[trigger] lines_of(s)[i],
            ) by {
                if i > 0 {
                    assert(lines_of(s)[i] == rest[i - 1]);
                }
            }
        }
    }
}

/// The number of line feeds in `s`.
pub open spec fn count_newlines(s: Seq<char>) -> nat
    decreases s.len(),
{
    if s.len() == 0 {
        0
    } else if s[0] == '\n' {
        1 + count_newlines(s.skip(1))
    } else {
        count_newlines(s.skip(1))
    }
}

/// The line feeds of `s` are the one at `first_newline(s)`, if there is
/// one, and those behind it.
proof fn lemma_count_from_first(s: Seq<char>)
    ensures
        first_newline(s) >= s.len() ==> count_newlines(s) == 0,
        first_newline(s) < s.len() ==> count_newlines(s) == 1 + count_newlines(
            s.skip(first_newline(s) as int + 1),
        ),
    decreases s.len(),
{
    if s.len() == 0 {
    } else if s[0] == '\n' {
    } else {
        let t = s.skip(1);
        lemma_count_from_first(t);
        lemma_first_newline_bounds(t);
        if first_newline(t) < t.len() {
            assert(t.skip(first_newline(t) as int + 1) =~= s.skip(first_newline(s) as int + 1));
        }
    }
}

/// A text has one line for each line feed in it, and one more for what
/// follows the last line feed unless nothing does.
pub proof fn lemma_line_count(s: Seq<char>)
    ensures
        lines_of(s).len() == count_newlines(s) + if s.len() > 0 && s.last() != '\n' {
            1nat
        } else {
            0nat
        },
    decreases s.len(),
{
    if s.len() > 0 {
        lemma_first_newline_bounds(s);
        lemma_count_from_first(s);
        let k = first_newline(s) as int;
        if k >= s.len() {
            assert(s.take(k) =~= s);
            assert(s.take(k)[s.len() - 1] != '\n');
        } else {
            let rest = s.skip(k + 1);
            lemma_line_count(rest);
            if rest.len() > 0 {
                assert(rest.last() == s.last());
            }
        }
    }
}

/// Splits `chars` into its lines.
pub fn split_lines(chars: &Vec<char>) -> (out: Vec<Vec<char>>)
    ensures
        out@.len() == lines_of(chars@).len(),
        forall|i: int| 0 <= i < out@.len() ==> (#[trigger] out@[i])@ == lines_of(chars@)[i],
{
    let n: usize = chars.len();
    let mut out: Vec<Vec<char>> = Vec::new();
    let mut cur: Vec<char> = Vec::new();
    let mut start: usize = 0;
    let mut i: usize = 0;
    assert(chars@.skip(0) =~= chars@);
    while i < n
        invariant
            n == chars.len(),
            start <= i <= n,
            cur@ == chars@.subrange(start as int, i as int),
            no_newline(cur@),
            lines_of(chars@).len() == out@.len() + lines_of(chars@.skip(start as int)).len(),
            forall|j: int|
                0 <= j < out@.len() ==> (#[trigger] out@[j])@ == lines_of(chars@)[j],
            forall|j: int|
                0 <= j < lines_of(chars@.skip(start as int)).len() ==> lines_of(chars@)[out@.len()
                    + j] == #[trigger] lines_of(chars@.skip(start as int))[j],
        decreases n - i,
    {
        let c = chars[i];
        if c == '\n' {
            proof {
                let rest = chars@.skip(start as int);
                assert forall|j: int| 0 <= j < i - start implies #[trigger] rest[j] != '\n' by {
                    assert(rest[j] == cur@[j]);
                }
                assert(rest[i - start] == '\n');
                lemma_first_newline(rest, i - start);
                assert(rest.take(i - start) =~= cur@);
                assert(rest.skip(i - start + 1) =~= chars@.skip(i + 1));
                let tail = lines_of(chars@.skip(i + 1));
                assert(lines_of(rest) == seq![chomp_cr(cur@)] + tail);
                assert(lines_of(rest)[0] == chomp_cr(cur@));
                assert forall|j: int| 0 <= j < tail.len() implies lines_of(chars@)[out@.len() + 1
                    + j] == #[trigger] tail[j] by {
                    assert(lines_of(rest)[j + 1] == tail[j]);
                }
            }
            let m: usize = cur.len();
            if m > 0 && cur[m - 1] == '\r' {
                cur.pop();
            }
            out.push(cur);
            cur = Vec::new();
            start = i + 1;
        } else {
            cur.push(c);
            assert(chars@.subrange(start as int, i as int).push(c) =~= chars@.subrange(
                start as int,
                i + 1,
            ));
        }
        i += 1;
    }
    proof {
        let rest = chars@.skip(start as int);
        assert(rest =~= cur@);
        if start < n {
            lemma_first_newline(rest, rest.len() as int);
            assert(lines_of(rest) == seq![rest]);
            assert(lines_of(rest)[0] == rest);
        }
    }
    if start < n {
        out.push(cur);
    }
    out
}

} // verus!
