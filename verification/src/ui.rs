//! The session: the scrollback, the line being edited, the command history
//! and the scroll position, and what each key does to them.

use crate::classify::{classify, message_color, message_text, strip_ansi};
use crate::frame::{
    clamped_scroll, cursor_cell, cursor_position, inner_rows, is_band_of, rows_inside, split_rows,
    title, title_for, visible_window, window_end, window_start, Frame, FrameView, Rect,
    StyledLine, INPUT_ROWS, LOG_MIN_ROWS,
};
use crate::logger::GlobalLogger;
use crate::messages::MessageLogger;
use crate::text::{chars_are_blank, from_chars, is_blank, push_char, to_chars};
use vstd::prelude::*;
use vstd::string::StrSliceExecFns;

verus! {

/// The keys the editor tells apart.
#[derive(Clone, Copy, Debug, PartialEq, Eq, Structural)]
pub enum KeyCode {
    Char(char),
    Enter,
    Up,
    Down,
    Backspace,
    Left,
    Right,
    Tab,
    PageUp,
    PageDown,
    Home,
    End,
    /// Any key the editor has no use for.
    Other,
}

/// One key press: the key, and whether Control was held.
#[derive(Clone, Copy, Debug, PartialEq, Eq, Structural)]
pub struct KeyEvent {
    pub code: KeyCode,
    pub control: bool,
}

/// What the caller is to do after a key has been handled.
#[derive(Debug, PartialEq, Eq)]
pub enum KeyAction {
    /// Nothing: draw the next frame.
    Continue,
    /// End the session.
    Exit,
    /// Hand this line to the command handler.
    Submit(String),
    /// Ask for completions of this buffer, with the cursor at this position.
    Complete(String, usize),
}

/// A `KeyAction` with its strings as sequences of characters.
pub enum ActionView {
    Continue,
    Exit,
    Submit(Seq<char>),
    Complete(Seq<char>, nat),
}

impl View for KeyAction {
    type V = ActionView;

    open spec fn view(&self) -> ActionView {
        match self {
            KeyAction::Continue => ActionView::Continue,
            KeyAction::Exit => ActionView::Exit,
            KeyAction::Submit(line) => ActionView::Submit(line@),
            KeyAction::Complete(buffer, cursor) => ActionView::Complete(buffer@, *cursor as nat),
        }
    }
}

/// The state of a session as plain values.
pub struct UiState {
    /// The scrollback, oldest line first.
    pub messages: Seq<Seq<char>>,
    /// The most lines the scrollback keeps.
    pub limit: nat,
    /// The line being edited.
    pub input: Seq<char>,
    /// Where the next character goes: a position in `input`, counted in
    /// characters.
    pub cursor: nat,
    /// What is shown before the line being edited.
    pub prompt: Seq<char>,
    /// How many lines the log view is scrolled up from the bottom.
    pub scroll: nat,
    /// The lines submitted so far that were not blank, oldest first.
    pub history: Seq<Seq<char>>,
    /// The history entry being looked at; `history.len()` when none is.
    pub history_index: nat,
}

impl UiState {
    /// What holds of every session: the cursor lies within the line, the
    /// history position within the history, no history entry is blank, and
    /// the scrollback within its limit.
    pub open spec fn wf(self) -> bool {
        &&& self.cursor <= self.input.len()
        &&& self.history_index <= self.history.len()
        &&& forall|i: int| 0 <= i < self.history.len() ==> !is_blank(#[trigger] self.history[i])
        &&& self.messages.len() <= self.limit
    }
}

/// The largest scroll offset that can be held.
pub open spec fn max_scroll() -> nat {
    usize::MAX as nat
}

/// The state after `key` has been pressed in state `s`.
pub open spec fn after_key(s: UiState, key: KeyEvent) -> UiState {
    match key.code {
        KeyCode::Char(c) => if c == 'c' && key.control {
            s
        } else {
            UiState { input: s.input.insert(s.cursor as int, c), cursor: s.cursor + 1, ..s }
        },
        KeyCode::Enter => {
            let history = if is_blank(s.input) {
                s.history
            } else {
                s.history.push(s.input)
            };
            UiState {
                input: Seq::empty(),
                cursor: 0,
                scroll: 0,
                history,
                history_index: if is_blank(s.input) {
                    s.history_index
                } else {
                    history.len()
                },
                ..s
            }
        },
        KeyCode::Up => if s.history_index > 0 {
            let entry = s.history[s.history_index - 1];
            UiState {
                input: entry,
                cursor: entry.len(),
                history_index: (s.history_index - 1) as nat,
                ..s
            }
        } else {
            s
        },
        KeyCode::Down => if s.history_index < s.history.len() {
            let entry = if s.history_index + 1 < s.history.len() {
                s.history[s.history_index as int + 1]
            } else {
                Seq::empty()
            };
            UiState { input: entry, cursor: entry.len(), history_index: s.history_index + 1, ..s }
        } else {
            s
        },
        KeyCode::Backspace => if s.cursor > 0 {
            UiState {
                input: s.input.remove(s.cursor - 1),
                cursor: (s.cursor - 1) as nat,
                ..s
            }
        } else {
            s
        },
        KeyCode::Left => if s.cursor > 0 {
            UiState { cursor: (s.cursor - 1) as nat, ..s }
        } else {
            s
        },
        KeyCode::Right => if s.cursor < s.input.len() {
            UiState { cursor: s.cursor + 1, ..s }
        } else {
            s
        },
        KeyCode::PageUp => UiState {
            scroll: if s.scroll + 5 > max_scroll() {
                max_scroll()
            } else {
                s.scroll + 5
            },
            ..s
        },
        KeyCode::PageDown => UiState {
            scroll: if s.scroll < 5 {
                0
            } else {
                (s.scroll - 5) as nat
            },
            ..s
        },
        KeyCode::Home => UiState { cursor: 0, ..s },
        KeyCode::End => UiState { cursor: s.input.len(), ..s },
        KeyCode::Tab => s,
        KeyCode::Other => s,
    }
}

/// What the caller is to do after `key` has been pressed in state `s`.
pub open spec fn action_for(s: UiState, key: KeyEvent) -> ActionView {
    match key.code {
        KeyCode::Char(c) => if c == 'c' && key.control {
            ActionView::Exit
        } else {
            ActionView::Continue
        },
        KeyCode::Enter => ActionView::Submit(s.input),
        KeyCode::Tab => ActionView::Complete(s.input, s.cursor),
        _ => ActionView::Continue,
    }
}

/// The state after the completions `candidates` have come back: the first
/// one replaces the line, with the cursor behind it; with none, nothing
/// changes.
pub open spec fn after_completion(s: UiState, candidates: Seq<Seq<char>>) -> UiState {
    if candidates.len() > 0 {
        UiState { input: candidates[0], cursor: candidates[0].len(), ..s }
    } else {
        s
    }
}

/// No key leads out of the states in which the cursor lies within the
/// line, the history position within the history, and no history entry is
/// blank.
pub proof fn lemma_after_key_wf(s: UiState, key: KeyEvent)
    requires
        s.wf(),
    ensures
        after_key(s, key).wf(),
{
    let t = after_key(s, key);
    match key.code {
        KeyCode::Enter => {
            if !is_blank(s.input) {
                assert forall|i: int| 0 <= i < t.history.len() implies !is_blank(
                    #[trigger] t.history[i],
                ) by {
                    if i < s.history.len() {
                        assert(t.history[i] == s.history[i]);
                    }
                }
            }
        },
        _ => {},
    }
}

/// Neither do completions.
pub proof fn lemma_after_completion_wf(s: UiState, candidates: Seq<Seq<char>>)
    requires
        s.wf(),
    ensures
        after_completion(s, candidates).wf(),
{
}

/// Right after a line that is not blank has been submitted, Up brings it
/// back and Down then empties the line again: the session is as it was
/// right after the submission.
pub proof fn lemma_history_round_trip(s: UiState, enter: KeyEvent, up: KeyEvent, down: KeyEvent)
    requires
        s.wf(),
        !is_blank(s.input),
        enter.code == KeyCode::Enter,
        up.code == KeyCode::Up,
        down.code == KeyCode::Down,
    ensures
        after_key(after_key(s, enter), up).input == s.input,
        after_key(after_key(after_key(s, enter), up), down).input == Seq::<char>::empty(),
        after_key(after_key(after_key(s, enter), up), down) == after_key(s, enter),
{
    let submitted = after_key(s, enter);
    let recalled = after_key(submitted, up);
    assert(submitted.history == s.history.push(s.input));
    assert(recalled.history_index == s.history.len());
    assert(recalled.input == s.input);
}

/// Submitting a blank line adds nothing to the history and leaves the
/// history position where it was, also while a history entry is being
/// looked at.
pub proof fn lemma_blank_submit(s: UiState, enter: KeyEvent)
    requires
        s.wf(),
        is_blank(s.input),
        enter.code == KeyCode::Enter,
    ensures
        after_key(s, enter).history == s.history,
        after_key(s, enter).history_index == s.history_index,
{
}

/// The state of a session that takes the lines `lines` of the bound log,
/// which keeps `limit` lines, as its scrollback; with no log bound it stays
/// as it is.
pub open spec fn with_log(s: UiState, lines: Option<Seq<Seq<char>>>, limit: nat) -> UiState {
    match lines {
        Some(held) => UiState { messages: held, limit, ..s },
        None => s,
    }
}

/// The frame that shows state `s` in the two given regions: the lines of
/// the scrollback that fit between the borders of the log region, counted
/// up from the scroll offset, each without escape sequences and in the
/// colour of its tag; the title; the prompt with the line being edited; and
/// the cell of the cursor.
pub open spec fn frame_for(s: UiState, log_area: Rect, input_area: Rect) -> FrameView {
    let rows = rows_inside(log_area.height);
    let total = s.messages.len();
    let start = window_start(total, rows, s.scroll);
    let end = window_end(total, rows, s.scroll);
    FrameView {
        log_area,
        input_area,
        title: title_for(clamped_scroll(total, rows, s.scroll)),
        items: Seq::new(
            (end - start) as nat,
            |i: int|
                (
                    message_text(strip_ansi(s.messages[start + i])),
                    message_color(strip_ansi(s.messages[start + i])),
                ),
        ),
        input_text: s.prompt + s.input,
        cursor: cursor_cell(input_area, s.prompt.len(), s.cursor),
    }
}

/// A session: scrollback, line editor, history and scroll position.
pub struct TerminalUI {
    messages: MessageLogger,
    input: Vec<char>,
    cursor_position: usize,
    prompt: String,
    scroll_offset: usize,
    history: Vec<String>,
    history_index: usize,
}

impl View for TerminalUI {
    type V = UiState;

    closed spec fn view(&self) -> UiState {
        UiState {
            messages: self.messages.lines(),
            limit: self.messages.limit(),
            input: self.input@,
            cursor: self.cursor_position as nat,
            prompt: self.prompt@,
            scroll: self.scroll_offset as nat,
            history: Seq::new(self.history@.len(), |i: int| self.history@[i]@),
            history_index: self.history_index as nat,
        }
    }
}

impl TerminalUI {
    #[verifier::type_invariant]
    spec fn inv(&self) -> bool {
        self@.wf()
    }

    /// A fresh session: an empty scrollback of the default size, an empty
    /// line, no history, and the prompt `"> "`.
    pub fn new() -> (ui: Self)
        ensures
            ui@ == (UiState {
                messages: Seq::empty(),
                limit: crate::messages::MAX_MESSAGES as nat,
                input: Seq::empty(),
                cursor: 0,
                prompt: "> "@,
                scroll: 0,
                history: Seq::empty(),
                history_index: 0,
            }),
            ui@.wf(),
    {
        let messages = MessageLogger::new();
        let prompt = "> ".to_owned();
        let history: Vec<String> = Vec::new();
        assert(Seq::new(history@.len(), |i: int| history@[i]@) =~= Seq::<Seq<char>>::empty());
        TerminalUI {
            messages,
            input: Vec::new(),
            cursor_position: 0,
            prompt,
            scroll_offset: 0,
            history,
            history_index: 0,
        }
    }

    /// Replaces the prompt.
    pub fn set_prompt(&mut self, prompt: String)
        ensures
            final(self)@ == (UiState { prompt: prompt@, ..old(self)@ }),
            final(self)@.wf(),
    {
        proof {
            use_type_invariant(&*self);
        }
        self.prompt = prompt;
    }

    /// A copy of the scrollback as it stands.
    pub fn get_message_logger(&self) -> (log: MessageLogger)
        ensures
            log.lines() == self@.messages,
            log.limit() == self@.limit,
    {
        self.messages.clone()
    }

    /// Replaces the scrollback by `log`.
    pub fn set_message_logger(&mut self, log: MessageLogger)
        ensures
            final(self)@ == (UiState {
                messages: log.lines(),
                limit: log.limit(),
                ..old(self)@
            }),
            final(self)@.wf(),
    {
        proof {
            use_type_invariant(&*self);
        }
        let _: usize = log.len();
        self.messages = log;
    }

    /// The line being edited.
    pub fn input(&self) -> (line: String)
        ensures
            line@ == self@.input,
    {
        from_chars(&self.input)
    }

    /// The position of the cursor in the line, counted in characters.
    pub fn cursor_position(&self) -> (cursor: usize)
        ensures
            cursor == self@.cursor,
            cursor <= self@.input.len(),
    {
        proof {
            use_type_invariant(self);
        }
        self.cursor_position
    }

    /// What is shown before the line being edited.
    pub fn prompt(&self) -> (prompt: &String)
        ensures
            prompt@ == self@.prompt,
    {
        &self.prompt
    }

    /// How many lines the log view is scrolled up from the bottom.
    pub fn scroll_offset(&self) -> (offset: usize)
        ensures
            offset == self@.scroll,
    {
        self.scroll_offset
    }

    /// The number of lines in the history.
    pub fn history_len(&self) -> (n: usize)
        ensures
            n == self@.history.len(),
    {
        self.history.len()
    }

    /// The history entry at position `index`, counted from the oldest.
    pub fn history_entry(&self, index: usize) -> (entry: &String)
        requires
            index < self@.history.len(),
        ensures
            entry@ == self@.history[index as int],
    {
        &self.history[index]
    }

    /// The history entry being looked at; the length of the history when
    /// none is.
    pub fn history_index(&self) -> (index: usize)
        ensures
            index == self@.history_index,
            index <= self@.history.len(),
    {
        proof {
            use_type_invariant(self);
        }
        self.history_index
    }

    /// Handles one key press: edits the line, walks the history or scrolls
    /// the log, and says what the caller is to do next. Enter hands the line
    /// out for the command handler and Tab asks for completions; neither
    /// waits for an answer.
    pub fn handle_key(&mut self, key: KeyEvent) -> (action: KeyAction)
        ensures
            final(self)@ == after_key(old(self)@, key),
            action@ == action_for(old(self)@, key),
            final(self)@.wf(),
    {
        proof {
            use_type_invariant(&*self);
        }
        match key.code {
            KeyCode::Char(c) => {
                if c == 'c' && key.control {
                    return KeyAction::Exit;
                }
                let mut next = self.input.clone();
                next.insert(self.cursor_position, c);
                let length: usize = next.len();
                self.input = next;
                assert(self.cursor_position < length);
                self.cursor_position += 1;
                KeyAction::Continue
            },
            KeyCode::Enter => {
                let cmd = from_chars(&self.input);
                if !chars_are_blank(&self.input) {
                    let ghost before = self@.history;
                    self.history_index = 0;
                    let mut entries: Vec<String> = Vec::new();
                    core::mem::swap(&mut self.history, &mut entries);
                    entries.push(cmd.clone());
                    assert(Seq::new(entries@.len(), |i: int| entries@[i]@) =~= before.push(cmd@));
                    core::mem::swap(&mut self.history, &mut entries);
                    self.history_index = self.history.len();
                }
                self.cursor_position = 0;
                self.input = Vec::new();
                self.scroll_offset = 0;
                KeyAction::Submit(cmd)
            },
            KeyCode::Up => {
                if self.history_index > 0 {
                    let entry = to_chars(self.history[self.history_index - 1].as_str());
                    self.cursor_position = 0;
                    self.history_index -= 1;
                    self.input = entry;
                    self.cursor_position = self.input.len();
                }
                KeyAction::Continue
            },
            KeyCode::Down => {
                if self.history_index < self.history.len() {
                    let entry = if self.history_index + 1 < self.history.len() {
                        to_chars(self.history[self.history_index + 1].as_str())
                    } else {
                        Vec::new()
                    };
                    self.cursor_position = 0;
                    self.history_index += 1;
                    self.input = entry;
                    self.cursor_position = self.input.len();
                }
                KeyAction::Continue
            },
            KeyCode::Backspace => {
                if self.cursor_position > 0 {
                    let mut next = self.input.clone();
                    next.remove(self.cursor_position - 1);
                    self.cursor_position -= 1;
                    self.input = next;
                }
                KeyAction::Continue
            },
            KeyCode::Left => {
                if self.cursor_position > 0 {
                    self.cursor_position -= 1;
                }
                KeyAction::Continue
            },
            KeyCode::Right => {
                if self.cursor_position < self.input.len() {
                    self.cursor_position += 1;
                }
                KeyAction::Continue
            },
            KeyCode::Tab => KeyAction::Complete(from_chars(&self.input), self.cursor_position),
            KeyCode::PageUp => {
                self.scroll_offset = self.scroll_offset.saturating_add(5);
                KeyAction::Continue
            },
            KeyCode::PageDown => {
                self.scroll_offset = self.scroll_offset.saturating_sub(5);
                KeyAction::Continue
            },
            KeyCode::Home => {
                self.cursor_position = 0;
                KeyAction::Continue
            },
            KeyCode::End => {
                self.cursor_position = self.input.len();
                KeyAction::Continue
            },
            KeyCode::Other => KeyAction::Continue,
        }
    }

    /// Takes the completions that were asked for with Tab: the first one
    /// replaces the line and the cursor goes behind it. With no completion
    /// nothing changes.
    pub fn apply_suggestions(&mut self, suggestions: &Vec<String>)
        ensures
            final(self)@ == after_completion(
                old(self)@,
                Seq::new(suggestions@.len(), |i: int| suggestions@[i]@),
            ),
            final(self)@.wf(),
    {
        proof {
            use_type_invariant(&*self);
        }
        if suggestions.len() > 0 {
            let first = to_chars(suggestions[0].as_str());
            self.cursor_position = 0;
            self.input = first;
            self.cursor_position = self.input.len();
        }
    }

    /// The frame that shows the session in the two given regions.
    pub fn compose(&self, log_area: Rect, input_area: Rect) -> (frame: Frame)
        ensures
            frame@ == frame_for(self@, log_area, input_area),
    {
        let rows = inner_rows(log_area);
        let total = self.messages.len();
        let (start, end, scrolled) = visible_window(total, rows, self.scroll_offset);
        let mut items: Vec<StyledLine> = Vec::new();
        let mut i: usize = start;
        while i < end
            invariant
                start <= i <= end <= total,
                total == self.messages.lines().len(),
                items@.len() == i - start,
                forall|j: int|
                    0 <= j < items@.len() ==> (#[trigger] items@[j]).text@ == message_text(
                        strip_ansi(self.messages.lines()[start + j]),
                    ) && items@[j].color == message_color(
                        strip_ansi(self.messages.lines()[start + j]),
                    ),
            decreases end - i,
        {
            let (text, color) = classify(self.messages.line(i).as_str());
            items.push(StyledLine { text, color });
            i += 1;
        }
        let mut input_text = self.prompt.clone();
        let mut k: usize = 0;
        while k < self.input.len()
            invariant
                k <= self.input.len(),
                input_text@ == self.prompt@ + self.input@.take(k as int),
            decreases self.input.len() - k,
        {
            push_char(&mut input_text, self.input[k]);
            assert(self.input@.take(k + 1) =~= self.input@.take(k as int).push(self.input@[k as int]));
            k += 1;
        }
        assert(self.input@.take(self.input.len() as int) =~= self.input@);
        let prompt_len = self.prompt.as_str().unicode_len();
        let cursor = cursor_position(input_area, prompt_len, self.cursor_position);
        let frame = Frame {
            log_area,
            input_area,
            title: title(scrolled),
            items,
            input_text,
            cursor,
        };
        assert(frame@.items =~= frame_for(self@, log_area, input_area).items);
        frame
    }

    /// Draws one frame on a screen of the size `area`. The session first
    /// takes the log that `binding` writes to, as it stands at this moment,
    /// as its scrollback; with no log bound it keeps the one it has. The
    /// screen is split into a log region above an input region; both span
    /// the columns of `area` and lie within its rows.
    pub fn draw(&mut self, binding: &GlobalLogger, area: Rect) -> (frame: Frame)
        ensures
            final(self)@ == with_log(old(self)@, binding.lines(), binding.limit()),
            final(self)@.wf(),
            frame@ == frame_for(final(self)@, frame.log_area, frame.input_area),
            is_band_of(frame.log_area, area),
            is_band_of(frame.input_area, area),
    {
        match binding.logger() {
            Some(log) => {
                self.set_message_logger(log);
            },
            None => {
                proof {
                    use_type_invariant(&*self);
                }
            },
        }
        let (log_area, input_area) = split_rows(area, LOG_MIN_ROWS, INPUT_ROWS);
        self.compose(log_area, input_area)
    }

    /// What the loop does once the command handler has answered: it ends
    /// when the handler asked for that, and goes on otherwise, also after
    /// a failure.
    pub fn command_outcome(result: Result<bool, String>) -> (action: KeyAction)
        ensures
            action@ == (if result == Ok::<bool, String>(true) {
                ActionView::Exit
            } else {
                ActionView::Continue
            }),
    {
        match result {
            Ok(true) => KeyAction::Exit,
            _ => KeyAction::Continue,
        }
    }
}

} // verus!
