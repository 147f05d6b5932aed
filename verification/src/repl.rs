//! Starting a session and passing submitted lines on to whoever handles
//! commands.

use crate::logger::{error, logged, set_logger, GlobalLogger};
use crate::messages::{
    entries, keep_last, lemma_keep_last_append, MessageLogger, MAX_MESSAGES,
};
use crate::text::{from_chars, to_chars, trim_chars, trimmed};
use crate::ui::{TerminalUI, UiState};
use vstd::prelude::*;

verus! {

/// The rows of the banner that opens a session, top to bottom.
pub const BANNER: [&'static str; 6] = [
    "[RUST1] ‚Ėą‚Ėą‚Ėą‚Ėą‚Ėą‚Ėą‚ēó ‚Ėą‚Ėą‚ēó‚Ėą‚Ėą‚Ėą‚Ėą‚Ėą‚Ėą‚Ėą‚ēó ‚Ėą‚Ėą‚Ėą‚Ėą‚Ėą‚Ėą‚ēó ‚Ėą‚Ėą‚Ėą‚Ėą‚Ėą‚Ėą‚Ėą‚ēó",
    "[RUST2] ‚Ėą‚Ėą‚ēĒ‚ēź‚ēź‚Ėą‚Ėą‚ēó‚Ėą‚Ėą‚ēĎ‚Ėą‚Ėą‚ēĒ‚ēź‚ēź‚ēź‚ēź‚ēĚ‚Ėą‚Ėą‚ēĒ‚ēź‚ēź‚ēź‚ēź‚ēĚ ‚Ėą‚Ėą‚ēĒ‚ēź‚ēź‚ēź‚ēź‚ēĚ",
    "[RUST3] ‚Ėą‚Ėą‚Ėą‚Ėą‚Ėą‚Ėą‚ēĒ‚ēĚ‚Ėą‚Ėą‚ēĎ‚Ėą‚Ėą‚Ėą‚Ėą‚Ėą‚ēó  ‚Ėą‚Ėą‚ēĎ  ‚Ėą‚Ėą‚Ėą‚ēó‚Ėą‚Ėą‚Ėą‚Ėą‚Ėą‚ēó  ",
    "[RUST4] ‚Ėą‚Ėą‚ēĒ‚ēź‚ēź‚Ėą‚Ėą‚ēó‚Ėą‚Ėą‚ēĎ‚Ėą‚Ėą‚ēĒ‚ēź‚ēź‚ēĚ  ‚Ėą‚Ėą‚ēĎ   ‚Ėą‚Ėą‚ēĎ‚Ėą‚Ėą‚ēĒ‚ēź‚ēź‚ēĚ  ",
    "[RUST5] ‚Ėą‚Ėą‚ēĎ  ‚Ėą‚Ėą‚ēĎ‚Ėą‚Ėą‚ēĎ‚Ėą‚Ėą‚Ėą‚Ėą‚Ėą‚Ėą‚Ėą‚ēó‚ēö‚Ėą‚Ėą‚Ėą‚Ėą‚Ėą‚Ėą‚ēĒ‚ēĚ‚Ėą‚Ėą‚Ėą‚Ėą‚Ėą‚Ėą‚Ėą‚ēó",
    "[RUST6] ‚ēö‚ēź‚ēĚ  ‚ēö‚ēź‚ēĚ‚ēö‚ēź‚ēĚ‚ēö‚ēź‚ēź‚ēź‚ēź‚ēź‚ēź‚ēĚ ‚ēö‚ēź‚ēź‚ēź‚ēź‚ēź‚ēĚ ‚ēö‚ēź‚ēź‚ēź‚ēź‚ēź‚ēź‚ēĚ",
];

/// The lines that the first `rows` rows of the banner add to a log.
pub open spec fn banner_rows(rows: nat) -> Seq<Seq<char>>
    decreases rows,
{
    if rows == 0 || rows > BANNER.len() {
        Seq::empty()
    } else {
        banner_rows((rows - 1) as nat) + entries(BANNER[rows - 1]@)
    }
}

/// The lines that the banner adds to a log: those of its rows, and an
/// empty line below them.
pub open spec fn banner() -> Seq<Seq<char>> {
    banner_rows(BANNER.len() as nat) + entries(""@)
}

/// What is to be done with a submitted line.
#[derive(Debug, PartialEq, Eq)]
pub enum Dispatch {
    /// Shutdown was asked for: end the session, hand nothing out.
    Exit,
    /// Hand this line, trimmed, to the command handler, then go on.
    Forward(String),
    /// No command handler is there: an error was logged; go on.
    Dropped,
}

/// What a session shares with the rest of the program: the logger binding,
/// the request to shut down, and the completions that have come in for the
/// request that is under way.
pub struct Context {
    /// The binding through which the program logs.
    pub logger: GlobalLogger,
    /// Whether shutdown has been asked for.
    pub shutdown: bool,
    /// The completions that have come in, in the order of their coming.
    pub candidates: Vec<String>,
}

impl Context {
    /// The completions that have come in, as sequences of characters.
    pub open spec fn pending(&self) -> Seq<Seq<char>> {
        Seq::new(self.candidates@.len(), |i: int| self.candidates@[i]@)
    }

    /// A context with no log bound, no shutdown asked for and no
    /// completions.
    pub fn new() -> (ctx: Self)
        ensures
            ctx.logger.lines() is None,
            !ctx.shutdown,
            ctx.pending() == Seq::<Seq<char>>::empty(),
    {
        let ctx = Context { logger: GlobalLogger::new(), shutdown: false, candidates: Vec::new() };
        assert(ctx.pending() =~= Seq::<Seq<char>>::empty());
        ctx
    }

    /// Asks for shutdown: the next submitted line ends the session.
    pub fn request_shutdown(&mut self)
        ensures
            final(self).shutdown,
            final(self).pending() == old(self).pending(),
            final(self).logger == old(self).logger,
    {
        self.shutdown = true;
    }

    /// Whether shutdown has been asked for.
    pub fn shutdown_requested(&self) -> (asked: bool)
        ensures
            asked == self.shutdown,
    {
        self.shutdown
    }

    /// Forgets the completions of the last request, before a new one is
    /// made.
    pub fn clear_candidates(&mut self)
        ensures
            final(self).pending() == Seq::<Seq<char>>::empty(),
            final(self).shutdown == old(self).shutdown,
            final(self).logger == old(self).logger,
    {
        self.candidates = Vec::new();
        assert(self.pending() =~= Seq::<Seq<char>>::empty());
    }

    /// Takes in one completion for the request that is under way.
    pub fn add_candidate(&mut self, candidate: String)
        ensures
            final(self).pending() == old(self).pending().push(candidate@),
            final(self).shutdown == old(self).shutdown,
            final(self).logger == old(self).logger,
    {
        self.candidates.push(candidate);
        assert(self.pending() =~= old(self).pending().push(candidate@));
    }

    /// The completions that have come in, in the order of their coming.
    pub fn candidates(&self) -> (out: Vec<String>)
        ensures
            Seq::new(out@.len(), |i: int| out@[i]@) == self.pending(),
    {
        let n: usize = self.candidates.len();
        let mut out: Vec<String> = Vec::new();
        let mut i: usize = 0;
        while i < n
            invariant
                n == self.candidates@.len(),
                i <= n,
                out@.len() == i,
                forall|j: int| 0 <= j < i ==> (#[trigger] out@[j])@ == self.candidates@[j]@,
            decreases n - i,
        {
            out.push(self.candidates[i].clone());
            i += 1;
        }
        assert(Seq::new(out@.len(), |i: int| out@[i]@) =~= self.pending());
        out
    }
}

/// The engine that runs sessions.
pub struct Terminal {}

impl Terminal {
    pub fn new() -> Self {
        Terminal {  }
    }

    /// Opens a session: a fresh one whose scrollback holds the banner and
    /// whose prompt is `"rmc > "`, with a log of the same content bound to
    /// the logger of `ctx`.
    pub fn open_session(&self, ctx: &mut Context) -> (ui: TerminalUI)
        ensures
            ui@ == (UiState {
                messages: keep_last(banner(), MAX_MESSAGES as nat),
                limit: MAX_MESSAGES as nat,
                input: Seq::empty(),
                cursor: 0,
                prompt: "rmc > "@,
                scroll: 0,
                history: Seq::empty(),
                history_index: 0,
            }),
            ui@.wf(),
            final(ctx).logger.lines() == Some(ui@.messages),
            final(ctx).logger.limit() == ui@.limit,
            final(ctx).shutdown == old(ctx).shutdown,
            final(ctx).pending() == old(ctx).pending(),
    {
        let mut ui = TerminalUI::new();
        let mut logger = ui.get_message_logger();
        self.add_banner(&mut logger);
        assert(Seq::<Seq<char>>::empty() + banner() =~= banner());
        ui.set_message_logger(logger.clone());
        set_logger(&mut ctx.logger, logger);
        ui.set_prompt("rmc > ".to_owned());
        ui
    }

    /// Decides what becomes of a submitted line. When shutdown has been
    /// asked for, the session ends and the line goes nowhere. Otherwise the
    /// line is handed out, trimmed, for the command handler if there is one
    /// (`connected`); if there is none, an error is logged instead.
    pub fn dispatch(&self, ctx: &mut Context, connected: bool, raw_input: &str) -> (step: Dispatch)
        ensures
            final(ctx).shutdown == old(ctx).shutdown,
            final(ctx).pending() == old(ctx).pending(),
            final(ctx).logger.limit() == old(ctx).logger.limit(),
            old(ctx).shutdown ==> {
                &&& step == Dispatch::Exit
                &&& final(ctx).logger.lines() == old(ctx).logger.lines()
            },
            !old(ctx).shutdown && connected ==> {
                &&& step is Forward
                &&& step->Forward_0@ == trimmed(raw_input@)
                &&& final(ctx).logger.lines() == old(ctx).logger.lines()
            },
            !old(ctx).shutdown && !connected ==> {
                &&& step == Dispatch::Dropped
                &&& final(ctx).logger.lines() == logged(
                    old(ctx).logger.lines(),
                    old(ctx).logger.limit(),
                    "[ERROR] "@ + "Backend disconnected."@,
                )
            },
    {
        if ctx.shutdown {
            Dispatch::Exit
        } else if connected {
            let chars = to_chars(raw_input);
            Dispatch::Forward(from_chars(&trim_chars(&chars)))
        } else {
            error(&mut ctx.logger, "Backend disconnected.");
            Dispatch::Dropped
        }
    }

    /// Logs the banner.
    pub fn add_banner(&self, logger: &mut MessageLogger)
        ensures
            final(logger).lines() == keep_last(old(logger).lines() + banner(), old(logger).limit()),
            final(logger).limit() == old(logger).limit(),
    {
        let _: usize = logger.len();
        let ghost before = logger.lines();
        let ghost limit = logger.limit();
        let mut row: usize = 0;
        assert(before + banner_rows(0) =~= before);
        while row < BANNER.len()
            invariant
                row <= BANNER.len(),
                logger.limit() == limit,
                logger.lines() == keep_last(before + banner_rows(row as nat), limit),
            decreases BANNER.len() - row,
        {
            proof {
                let added = entries(BANNER[row as int]@);
                lemma_keep_last_append(before + banner_rows(row as nat), added, limit);
                assert((before + banner_rows(row as nat)) + added =~= before + banner_rows(
                    (row + 1) as nat,
                ));
            }
            logger.log(BANNER[row].to_owned());
            row += 1;
        }
        proof {
            let rows = banner_rows(BANNER.len() as nat);
            lemma_keep_last_append(before + rows, entries(""@), limit);
            assert((before + rows) + entries(""@) =~= before + banner());
        }
        logger.log("".to_owned());
    }
}

} // verus!
