//! The scrollback: a bounded log of display lines that drops its oldest
//! line when a new one would not fit.

use crate::text::{
    from_chars, lemma_lines_have_no_newline, lines_of, no_newline, split_lines, to_chars,
};
use std::collections::VecDeque;
use vstd::prelude::*;
use vstd::string::StringExecFns;

verus! {

/// The number of lines a log keeps unless told otherwise.
pub const MAX_MESSAGES: usize = 1000;

/// The lines that one message adds to the log: its lines, and one empty line
/// more when the message is empty or a lone line feed.
pub open spec fn entries(message: Seq<char>) -> Seq<Seq<char>> {
    if message.len() == 0 || message == seq!['\n'] {
        lines_of(message).push(Seq::empty())
    } else {
        lines_of(message)
    }
}

/// The last `capacity` lines of `lines`, or all of them if there are fewer.
pub open spec fn keep_last(lines: Seq<Seq<char>>, capacity: nat) -> Seq<Seq<char>> {
    if lines.len() <= capacity {
        lines
    } else {
        lines.skip(lines.len() - capacity)
    }
}

/// Keeping the last lines after each push is keeping the last lines once.
pub proof fn lemma_keep_last_push(lines: Seq<Seq<char>>, line: Seq<char>, capacity: nat)
    requires
        capacity > 0,
    ensures
        keep_last(keep_last(lines, capacity).push(line), capacity) == keep_last(
            lines.push(line),
            capacity,
        ),
{
    assert(keep_last(keep_last(lines, capacity).push(line), capacity) =~= keep_last(
        lines.push(line),
        capacity,
    ));
}

/// Keeping the last lines, adding more and keeping the last again is
/// keeping the last of all.
pub proof fn lemma_keep_last_append(
    lines: Seq<Seq<char>>,
    more: Seq<Seq<char>>,
    capacity: nat,
)
    ensures
        keep_last(keep_last(lines, capacity) + more, capacity) == keep_last(
            lines + more,
            capacity,
        ),
{
    assert(keep_last(keep_last(lines, capacity) + more, capacity) =~= keep_last(
        lines + more,
        capacity,
    ));
}

/// All the lines that the messages `messages` add, in the order in which
/// they are logged.
pub open spec fn all_entries(messages: Seq<Seq<char>>) -> Seq<Seq<char>>
    decreases messages.len(),
{
    if messages.len() == 0 {
        Seq::empty()
    } else {
        all_entries(messages.drop_last()) + entries(messages.last())
    }
}

/// The lines of a log that held `lines` and keeps `capacity` lines, after
/// the messages `messages` have been logged one after the other.
pub open spec fn after_logging(
    lines: Seq<Seq<char>>,
    capacity: nat,
    messages: Seq<Seq<char>>,
) -> Seq<Seq<char>>
    decreases messages.len(),
{
    if messages.len() == 0 {
        lines
    } else {
        keep_last(
            after_logging(lines, capacity, messages.drop_last()) + entries(messages.last()),
            capacity,
        )
    }
}

/// Every line that a message adds is free of line feeds.
pub proof fn lemma_entries_have_no_newline(message: Seq<char>)
    ensures
        forall|i: int| 0 <= i < entries(message).len() ==> no_newline(#[trigger] entries(message)[i]),
{
    lemma_lines_have_no_newline(message);
}

/// However many messages are logged, the log holds the last lines of all
/// that was added to it, as many as fit.
pub proof fn lemma_after_logging(lines: Seq<Seq<char>>, capacity: nat, messages: Seq<Seq<char>>)
    requires
        lines.len() <= capacity,
    ensures
        after_logging(lines, capacity, messages) == keep_last(
            lines + all_entries(messages),
            capacity,
        ),
    decreases messages.len(),
{
    if messages.len() == 0 {
        assert(lines + all_entries(messages) =~= lines);
    } else {
        let front = messages.drop_last();
        lemma_after_logging(lines, capacity, front);
        lemma_keep_last_append(lines + all_entries(front), entries(messages.last()), capacity);
        assert((lines + all_entries(front)) + entries(messages.last()) =~= lines + all_entries(
            messages,
        ));
    }
}

/// A log never holds more lines than its capacity. Once more lines have
/// been added to an empty log than it keeps, `n` in all, it holds the last
/// `capacity` of them in order: its oldest line is the one that was added
/// as number `n - capacity + 1`.
pub proof fn lemma_log_keeps_newest(capacity: nat, messages: Seq<Seq<char>>)
    requires
        capacity > 0,
    ensures
        after_logging(Seq::empty(), capacity, messages).len() <= capacity,
        all_entries(messages).len() > capacity ==> {
            let n = all_entries(messages).len() as int;
            let held = after_logging(Seq::empty(), capacity, messages);
            &&& held.len() == capacity
            &&& held[0] == all_entries(messages)[n - capacity]
            &&& forall|i: int|
                0 <= i < capacity ==> #[trigger] held[i] == all_entries(messages)[n - capacity + i]
        },
        all_entries(messages).len() <= capacity ==> after_logging(
            Seq::empty(),
            capacity,
            messages,
        ) == all_entries(messages),
{
    lemma_after_logging(Seq::empty(), capacity, messages);
    assert(Seq::<Seq<char>>::empty() + all_entries(messages) =~= all_entries(messages));
}

/// A bounded log of display lines, oldest first.
pub struct MessageLogger {
    messages: VecDeque<String>,
    capacity: usize,
}

impl MessageLogger {
    #[verifier::type_invariant]
    spec fn inv(&self) -> bool {
        &&& 0 < self.capacity
        &&& self.messages@.len() <= self.capacity
        &&& forall|i: int| 0 <= i < self.messages@.len() ==> no_newline(#[trigger] self.messages@[i]@)
    }

    /// The lines the log holds, oldest first.
    pub closed spec fn lines(&self) -> Seq<Seq<char>> {
        Seq::new(self.messages@.len(), |i: int| self.messages@[i]@)
    }

    /// The most lines the log ever holds.
    pub closed spec fn limit(&self) -> nat {
        self.capacity as nat
    }

    /// An empty log that keeps `MAX_MESSAGES` lines.
    pub fn new() -> (log: Self)
        ensures
            log.lines() == Seq::<Seq<char>>::empty(),
            log.limit() == MAX_MESSAGES,
    {
        let log = MessageLogger { messages: VecDeque::new(), capacity: MAX_MESSAGES };
        assert(log.lines() =~= Seq::<Seq<char>>::empty());
        log
    }

    /// An empty log that keeps `capacity` lines.
    pub fn with_capacity(capacity: usize) -> (log: Self)
        requires
            capacity > 0,
        ensures
            log.lines() == Seq::<Seq<char>>::empty(),
            log.limit() == capacity,
    {
        let log = MessageLogger { messages: VecDeque::new(), capacity };
        assert(log.lines() =~= Seq::<Seq<char>>::empty());
        log
    }

    /// The number of lines held.
    pub fn len(&self) -> (n: usize)
        ensures
            n == self.lines().len(),
            n <= self.limit(),
    {
        proof {
            use_type_invariant(self);
        }
        self.messages.len()
    }

    /// The most lines the log ever holds.
    pub fn capacity(&self) -> (c: usize)
        ensures
            c == self.limit(),
            c > 0,
    {
        proof {
            use_type_invariant(self);
        }
        self.capacity
    }

    /// The line at position `index`, counted from the oldest.
    pub fn line(&self, index: usize) -> (line: &String)
        requires
            index < self.lines().len(),
        ensures
            line@ == self.lines()[index as int],
            no_newline(line@),
    {
        proof {
            use_type_invariant(self);
        }
        &self.messages[index]
    }

    /// A copy of the lines, oldest first, as they stand at this moment.
    pub fn snapshot(&self) -> (out: Vec<String>)
        ensures
            out@.len() == self.lines().len(),
            forall|i: int| 0 <= i < out@.len() ==> (#[trigger] out@[i])@ == self.lines()[i],
            forall|i: int| 0 <= i < out@.len() ==> no_newline((#[trigger] out@[i])@),
    {
        proof {
            use_type_invariant(self);
        }
        let n: usize = self.messages.len();
        let mut out: Vec<String> = Vec::new();
        let mut i: usize = 0;
        while i < n
            invariant
                n == self.messages@.len(),
                i <= n,
                out@.len() == i,
                forall|j: int| 0 <= j < i ==> (#[trigger] out@[j])@ == self.lines()[j],
            decreases n - i,
        {
            out.push(self.messages[i].clone());
            i += 1;
        }
        out
    }

    /// Adds one line, dropping the oldest first if the log is full.
    fn push_line(&mut self, line: String)
        requires
            no_newline(line@),
        ensures
            final(self).lines() == keep_last(old(self).lines().push(line@), old(self).limit()),
            final(self).limit() == old(self).limit(),
    {
        proof {
            use_type_invariant(&*self);
        }
        let mut held: VecDeque<String> = VecDeque::new();
        core::mem::swap(&mut self.messages, &mut held);
        if held.len() >= self.capacity {
            held.pop_front();
        }
        held.push_back(line);
        core::mem::swap(&mut self.messages, &mut held);
        assert(self.lines() =~= keep_last(old(self).lines().push(line@), old(self).limit()));
    }

    /// Appends `message` line by line. An empty message, or one that is a
    /// lone line feed, adds one empty line more. When the log is full each
    /// new line pushes the oldest one out.
    pub fn log(&mut self, message: String)
        ensures
            final(self).lines() == keep_last(
                old(self).lines() + entries(message@),
                old(self).limit(),
            ),
            final(self).limit() == old(self).limit(),
            final(self).lines().len() <= final(self).limit(),
            forall|i: int|
                0 <= i < final(self).lines().len() ==> no_newline(#[trigger] final(self).lines()[i]),
    {
        proof {
            use_type_invariant(&*self);
            lemma_lines_have_no_newline(message@);
        }
        let chars = to_chars(message.as_str());
        let lines = split_lines(&chars);
        let ghost before = self.lines();
        let ghost cap = self.limit();
        let ghost split = lines_of(message@);
        let mut i: usize = 0;
        assert(before + split.take(0) =~= before);
        while i < lines.len()
            invariant
                i <= lines.len(),
                cap > 0,
                cap == self.limit(),
                before.len() <= cap,
                split == lines_of(chars@),
                lines@.len() == split.len(),
                forall|j: int| 0 <= j < lines@.len() ==> (#[trigger] lines@[j])@ == split[j],
                forall|j: int| 0 <= j < split.len() ==> no_newline(#[trigger] split[j]),
                self.lines() == keep_last(before + split.take(i as int), cap),
            decreases lines.len() - i,
        {
            let line = from_chars(&lines[i]);
            assert(line@ == split[i as int]);
            proof {
                lemma_keep_last_push(before + split.take(i as int), line@, cap);
                assert((before + split.take(i as int)).push(line@) =~= before + split.take(i + 1));
            }
            self.push_line(line);
            i += 1;
        }
        assert(split.take(split.len() as int) =~= split);
        if chars.len() == 0 || (chars.len() == 1 && chars[0] == '\n') {
            proof {
                assert(message@ =~= seq!['\n'] <==> (message@.len() == 1 && message@[0] == '\n'));
                lemma_keep_last_push(before + split, Seq::empty(), cap);
                assert((before + split).push(Seq::empty()) =~= before + split.push(Seq::empty()));
            }
            self.push_line(String::new());
        } else {
            assert(!(message@ =~= seq!['\n'])) by {
                if message@ =~= seq!['\n'] {
                    assert(message@.len() == 1 && message@[0] == '\n');
                }
            }
        }
        proof {
            use_type_invariant(&*self);
        }
    }

    /// Logs `message` behind the tag `[INFO]`.
    pub fn info(&mut self, message: &str)
        ensures
            final(self).lines() == keep_last(
                old(self).lines() + entries("[INFO] "@ + message@),
                old(self).limit(),
            ),
            final(self).limit() == old(self).limit(),
    {
        self.log(String::from_str("[INFO] ").concat(message));
    }

    /// Logs `message` behind the tag `[ERROR]`.
    pub fn error(&mut self, message: &str)
        ensures
            final(self).lines() == keep_last(
                old(self).lines() + entries("[ERROR] "@ + message@),
                old(self).limit(),
            ),
            final(self).limit() == old(self).limit(),
    {
        self.log(String::from_str("[ERROR] ").concat(message));
    }

    /// Logs `message` behind the tag `[SUCCESS]`.
    pub fn success(&mut self, message: &str)
        ensures
            final(self).lines() == keep_last(
                old(self).lines() + entries("[SUCCESS] "@ + message@),
                old(self).limit(),
            ),
            final(self).limit() == old(self).limit(),
    {
        self.log(String::from_str("[SUCCESS] ").concat(message));
    }

    /// Logs `message` behind the tag `[WARNING]`.
    pub fn warning(&mut self, message: &str)
        ensures
            final(self).lines() == keep_last(
                old(self).lines() + entries("[WARNING] "@ + message@),
                old(self).limit(),
            ),
            final(self).limit() == old(self).limit(),
    {
        self.log(String::from_str("[WARNING] ").concat(message));
    }

    /// Logs `message` behind the tag `[DEBUG]`.
    pub fn debug(&mut self, message: &str)
        ensures
            final(self).lines() == keep_last(
                old(self).lines() + entries("[DEBUG] "@ + message@),
                old(self).limit(),
            ),
            final(self).limit() == old(self).limit(),
    {
        self.log(String::from_str("[DEBUG] ").concat(message));
    }
}

impl Clone for MessageLogger {
    /// A log of its own with the same lines and the same limit.
    fn clone(&self) -> (copy: Self)
        ensures
            copy.lines() == self.lines(),
            copy.limit() == self.limit(),
    {
        proof {
            use_type_invariant(self);
        }
        let n: usize = self.messages.len();
        let mut held: VecDeque<String> = VecDeque::new();
        let mut i: usize = 0;
        while i < n
            invariant
                n == self.messages@.len(),
                i <= n,
                held@.len() == i,
                forall|j: int| 0 <= j < i ==> (#[trigger] held@[j])@ == self.messages@[j]@,
            decreases n - i,
        {
            held.push_back(self.messages[i].clone());
            i += 1;
        }
        let copy = MessageLogger { messages: held, capacity: self.capacity };
        assert(copy.lines() =~= self.lines());
        copy
    }
}

} // verus!
