//! Debug console state: log, input line, history and the pending command.
//!
//! Drawing happens elsewhere; this module holds what the console remembers
//! between frames and how one frame's user actions change it.

use vstd::prelude::*;

use crate::text::{chars_of, push_char, push_chars, split_chars, string_from, string_of, trim, trim_chars, views, split_on};

verus! {

/// The console keeps at most this many log lines.
pub const MAX_LOG_LINES: usize = 200;

/// The abstract state of the console.
pub struct ShellModel {
    pub open: bool,
    pub focus_input: bool,
    pub input: Seq<char>,
    pub log: Seq<Seq<char>>,
    pub history: Seq<Seq<char>>,
    pub history_cursor: Option<int>,
    pub pending_command: Option<Seq<char>>,
}

pub struct DebugShell {
    open: bool,
    focus_input: bool,
    input: String,
    log: Vec<String>,
    history: Vec<String>,
    history_cursor: Option<usize>,
    pending_command: Option<String>,
}

/// The views of a vector of strings.
pub open spec fn string_views(v: Seq<String>) -> Seq<Seq<char>> {
    v.map_values(|s: String| s@)
}

impl View for DebugShell {
    type V = ShellModel;

    closed spec fn view(&self) -> ShellModel {
        ShellModel {
            open: self.open,
            focus_input: self.focus_input,
            input: self.input@,
            log: string_views(self.log@),
            history: string_views(self.history@),
            history_cursor: match self.history_cursor {
                Some(i) => Some(i as int),
                None => None,
            },
            pending_command: match self.pending_command {
                Some(p) => Some(p@),
                None => None,
            },
        }
    }
}

/// The log after appending each `\n`-separated piece of `line`, keeping the
/// newest `MAX_LOG_LINES` lines.
pub open spec fn log_after_push(log: Seq<Seq<char>>, line: Seq<char>) -> Seq<Seq<char>> {
    let all = log + split_on(line, '\n');
    if all.len() > MAX_LOG_LINES {
        all.skip(all.len() - MAX_LOG_LINES)
    } else {
        all
    }
}

/// The console after `push_log(line)`.
pub open spec fn shell_push_log(m: ShellModel, line: Seq<char>) -> ShellModel {
    ShellModel { log: log_after_push(m.log, line), ..m }
}

/// A state is well formed when the history cursor points into the history.
pub open spec fn shell_wf(m: ShellModel) -> bool {
    m.history_cursor matches Some(i) ==> 0 <= i < m.history.len()
}

/// Moving through the history by `delta` (negative: older entries).
pub open spec fn shell_nudge(m: ShellModel, delta: int) -> ShellModel {
    let len = m.history.len() as int;
    if len == 0 {
        m
    } else {
        match m.history_cursor {
            None => if delta < 0 {
                ShellModel { history_cursor: Some(len - 1), input: m.history[len - 1], ..m }
            } else {
                m
            },
            Some(i) => {
                let n = i + delta;
                if n < 0 {
                    ShellModel { history_cursor: None, input: seq![], ..m }
                } else if n >= len {
                    m
                } else {
                    ShellModel { history_cursor: Some(n), input: m.history[n], ..m }
                }
            },
        }
    }
}

/// `delta` can be applied without leaving the `i32` range.
pub open spec fn nudge_in_range(m: ShellModel, delta: i32) -> bool {
    m.history.len() <= i32::MAX && (m.history_cursor matches Some(i) ==> i + delta <= i32::MAX)
}

/// Submitting `line`: it is logged, remembered and handed out as the pending
/// command (trimmed), and the input line is cleared.
pub open spec fn shell_submit(m: ShellModel, line: Seq<char>) -> ShellModel {
    let t = trim(line);
    let logged = shell_push_log(m, "> "@ + t);
    ShellModel {
        history: logged.history.push(t),
        history_cursor: None,
        input: seq![],
        pending_command: Some(t),
        focus_input: true,
        ..logged
    }
}

/// The console after one drawn frame in which the user edited the input line
/// to `input`, possibly pressed escape (`close`), moved through the history
/// by `delta`, and possibly submitted `run_line`.
pub open spec fn shell_end_frame(
    m: ShellModel,
    input: Seq<char>,
    close: bool,
    delta: int,
    run_line: Option<Seq<char>>,
) -> ShellModel {
    let a = ShellModel { focus_input: false, input: input, ..m };
    let b = if close {
        ShellModel { open: false, ..a }
    } else {
        a
    };
    let c = if delta != 0 {
        shell_nudge(b, delta)
    } else {
        b
    };
    match run_line {
        Some(l) => shell_submit(c, l),
        None => c,
    }
}

proof fn lemma_views_push(v: Seq<String>, s: String)
    ensures
        string_views(v.push(s)) == string_views(v).push(s@),
{
    assert(string_views(v.push(s)) =~= string_views(v).push(s@));
}

impl DebugShell {
    /// The state of a new console: closed, empty.
    pub open spec fn new_model() -> ShellModel {
        ShellModel {
            open: false,
            focus_input: false,
            input: seq![],
            log: seq![],
            history: seq![],
            history_cursor: None,
            pending_command: None,
        }
    }

    /// The history cursor points into the history.
    #[verifier::type_invariant]
    pub open spec fn cursor_in_history(self) -> bool {
        shell_wf(self@)
    }

    pub fn new() -> (r: Self)
        ensures
            r@ == Self::new_model(),
            shell_wf(r@),
    {
        let r = Self {
            open: false,
            focus_input: false,
            input: String::new(),
            log: Vec::new(),
            history: Vec::new(),
            history_cursor: None,
            pending_command: None,
        };
        assert(r@.log =~= Seq::<Seq<char>>::empty());
        assert(r@.history =~= Seq::<Seq<char>>::empty());
        r
    }

    /// Whether the console is open.
    pub fn is_open(&self) -> (r: bool)
        ensures
            r == self@.open,
    {
        self.open
    }

    /// Whether the input line should take keyboard focus this frame.
    pub fn wants_focus(&self) -> (r: bool)
        ensures
            r == self@.focus_input,
    {
        self.focus_input
    }

    /// Opens or closes the console; opening focuses the input line.
    pub fn set_open(&mut self, open: bool)
        ensures
            final(self)@ == (ShellModel {
                open: open,
                focus_input: open || old(self)@.focus_input,
                ..old(self)@
            }),
    {
        proof {
            use_type_invariant(&*self);
        }
        self.open = open;
        if open {
            self.focus_input = true;
        }
    }

    /// The command submitted since the last call, if any.
    pub fn take_pending_command(&mut self) -> (r: Option<String>)
        ensures
            r matches Some(s) ==> old(self)@.pending_command == Some(s@),
            r is None ==> old(self)@.pending_command is None,
            final(self)@ == (ShellModel { pending_command: None, ..old(self)@ }),
    {
        proof {
            use_type_invariant(&*self);
        }
        let mut pending: Option<String> = None;
        std::mem::swap(&mut pending, &mut self.pending_command);
        pending
    }

    /// Appends each `\n`-separated piece of `line` to the log, keeping the
    /// newest `MAX_LOG_LINES` lines.
    pub fn push_log(&mut self, line: &str)
        ensures
            final(self)@ == shell_push_log(old(self)@, line@),
    {
        proof {
            use_type_invariant(&*self);
        }
        let chars = chars_of(line);
        let pieces = split_chars(&chars, '\n');
        let mut log: Vec<String> = Vec::new();
        std::mem::swap(&mut log, &mut self.log);
        let n = pieces.len();
        let mut i: usize = 0;
        while i < n
            invariant
                n == pieces@.len(),
                i <= n,
                string_views(log@) == old(self)@.log + views(pieces@).take(i as int),
            decreases n - i,
        {
            let s = string_of(&pieces[i]);
            proof {
                lemma_views_push(log@, s);
                assert(views(pieces@).take(i + 1) =~= views(pieces@).take(i as int).push(s@));
            }
            log.push(s);
            i = i + 1;
        }
        assert(views(pieces@).take(n as int) =~= views(pieces@));
        if log.len() > MAX_LOG_LINES {
            let drain = log.len() - MAX_LOG_LINES;
            let kept = log.split_off(drain);
            log = kept;
            assert(string_views(log@) =~= log_after_push(old(self)@.log, line@));
        }
        self.log = log;
    }

    /// Whether the console or a HUD line needs drawing.
    pub fn wants_draw(&self, hud_line: Option<&str>) -> (r: bool)
        ensures
            r == (self@.open || hud_line is Some),
    {
        self.open || hud_line.is_some()
    }

    /// The log lines, oldest first.
    pub fn log_lines(&self) -> (r: &Vec<String>)
        ensures
            string_views(r@) == self@.log,
    {
        &self.log
    }

    /// How many submitted lines the history holds.
    pub fn history_len(&self) -> (r: usize)
        ensures
            r == self@.history.len(),
    {
        self.history.len()
    }

    /// The input line as it stands.
    pub fn input_line(&self) -> (r: String)
        ensures
            r@ == self@.input,
    {
        let v = chars_of(self.input.as_str());
        string_of(&v)
    }

    /// Moves through the history by `delta` (negative: older entries).
    fn nudge_history(&mut self, delta: i32)
        requires
            nudge_in_range(old(self)@, delta),
        ensures
            final(self)@ == shell_nudge(old(self)@, delta as int),
            shell_wf(final(self)@),
    {
        proof {
            use_type_invariant(&*self);
        }
        if self.history.len() == 0 {
            return;
        }
        let len = self.history.len();
        let idx: usize = match self.history_cursor {
            None => {
                if delta < 0 {
                    len - 1
                } else {
                    return ;
                }
            },
            Some(i) => {
                let n: i32 = i as i32 + delta;
                if n < 0 {
                    self.history_cursor = None;
                    self.input = String::new();
                    return ;
                }
                if n as usize >= len {
                    return ;
                }
                n as usize
            },
        };
        self.history_cursor = Some(idx);
        let v = chars_of(self.history[idx].as_str());
        self.input = string_of(&v);
    }

    /// Applies one drawn frame's user actions: the edited input line, an
    /// escape (`close`), a history move by `history_delta`, and a submitted
    /// line (`run_line`).
    pub fn end_frame(
        &mut self,
        input: String,
        close: bool,
        history_delta: i32,
        run_line: Option<String>,
    )
        requires
            nudge_in_range(old(self)@, history_delta),
            old(self)@.history.len() < i32::MAX,
        ensures
            final(self)@ == shell_end_frame(
                old(self)@,
                input@,
                close,
                history_delta as int,
                match run_line {
                    Some(l) => Some(l@),
                    None => None,
                },
            ),
            shell_wf(final(self)@),
    {
        proof {
            use_type_invariant(&*self);
        }
        self.focus_input = false;
        self.input = input;
        if close {
            self.open = false;
        }
        if history_delta != 0 {
            self.nudge_history(history_delta);
        }
        if let Some(line) = run_line {
            let lc = chars_of(line.as_str());
            let t = trim_chars(&lc);
            let mut logged = string_from("> ");
            push_chars(&mut logged, &t);
            self.push_log(logged.as_str());
            let h = string_of(&t);
            proof {
                lemma_views_push(self.history@, h);
            }
            self.history_cursor = None;
            let mut history: Vec<String> = Vec::new();
            std::mem::swap(&mut history, &mut self.history);
            history.push(h);
            self.history = history;
            self.input = String::new();
            self.pending_command = Some(string_of(&t));
            self.focus_input = true;
        }
    }
}

/// The console log never holds more than `MAX_LOG_LINES` lines, and after
/// a push it ends with the pushed pieces (the newest ones when the line has
/// more pieces than the log keeps).
pub proof fn law_log_bounded(log: Seq<Seq<char>>, line: Seq<char>)
    ensures
        log_after_push(log, line).len() <= MAX_LOG_LINES,
        ({
            let pieces = split_on(line, '\n');
            let out = log_after_push(log, line);
            let n = if pieces.len() < MAX_LOG_LINES {
                pieces.len() as int
            } else {
                MAX_LOG_LINES as int
            };
            out.subrange(out.len() - n, out.len() as int) == pieces.subrange(pieces.len() - n, pieces.len() as int)
        }),
{
    let pieces = split_on(line, '\n');
    let all = log + pieces;
    let out = log_after_push(log, line);
    let n = if pieces.len() < MAX_LOG_LINES {
        pieces.len() as int
    } else {
        MAX_LOG_LINES as int
    };
    assert(out.subrange(out.len() - n, out.len() as int) =~= pieces.subrange(
        pieces.len() - n,
        pieces.len() as int,
    ));
}

} // verus!
