//! The terminal session: an event-driven line editor and command
//! dispatcher.
//!
//! Each input event — a keystroke, a pasted string, a control code or the
//! startup sentinel — is handled by a pure transition: it updates the
//! session state and hands back a reaction, which the host performs.  A
//! reaction is a list of effects to carry out at once, a task that may
//! take a while (animated text playback, or the automaton loop), and a
//! list of effects to carry out after the task.

use vstd::prelude::*;
use vstd::string::{StrSliceExecFns, StringExecFns};
use crate::editor::{LineEditor, printable_start};
use crate::strutil::str_eq;
use crate::writer::{line_effects, play_line, Effect, EffectView, effect_views};

verus! {

/// The default pacing between printed characters at session start.
pub const DEFAULT_PACING: u32 = 3;

/// The tokens of a submitted line: the maximal runs of non-space
/// characters, in order.
pub open spec fn tokens_of(s: Seq<char>) -> Seq<Seq<char>>
    decreases s.len(),
{
    if s.len() == 0 {
        Seq::empty()
    } else if s[0] == ' ' {
        tokens_of(s.drop_first())
    } else {
        let rest = tokens_of(s.drop_first());
        if s.len() >= 2 && s[1] != ' ' {
            seq![seq![s[0]] + rest[0]] + rest.drop_first()
        } else {
            seq![seq![s[0]]] + rest
        }
    }
}

/// Splitting off the first token: if the first `k` characters of `s` are
/// not spaces and a space (or the end) follows, the tokens of `s` are
/// those characters followed by the tokens of the rest.
proof fn lemma_tokens_word(s: Seq<char>, k: int)
    requires
        0 < k <= s.len(),
        forall|j: int| 0 <= j < k ==> s[j] != ' ',
        k == s.len() || s[k] == ' ',
    ensures
        tokens_of(s) =~~= seq![s.take(k)] + tokens_of(s.skip(k)),
    decreases k,
{
    if k == 1 {
        assert(s.take(1) =~= seq![s[0]]);
        assert(s.drop_first() =~= s.skip(1));
        if s.len() >= 2 {
            assert(s[1] == ' ');
        }
    } else {
        let sd = s.drop_first();
        assert forall|j: int| 0 <= j < k - 1 implies sd[j] != ' ' by {
            assert(sd[j] == s[j + 1]);
        }
        assert(k - 1 == sd.len() || sd[k - 1] == ' ');
        lemma_tokens_word(sd, k - 1);
        assert(s[1] != ' ');
        let rest = tokens_of(sd);
        assert(rest[0] == sd.take(k - 1));
        assert(rest.len() > 0);
        assert(rest.drop_first() =~~= tokens_of(sd.skip(k - 1)));
        assert(tokens_of(s) == seq![seq![s[0]] + rest[0]] + rest.drop_first());
        assert(seq![s[0]] + sd.take(k - 1) =~= s.take(k));
        assert(sd.skip(k - 1) =~= s.skip(k));
    }
}

/// Split a line into its whitespace-delimited tokens; blank stretches
/// yield nothing.
pub fn tokenize(line: &str) -> (r: Vec<String>)
    ensures
        r.deep_view() == tokens_of(line@),
{
    let n = line.unicode_len();
    let mut out: Vec<String> = Vec::new();
    let mut i: usize = 0;
    proof {
        assert(line@.skip(0) =~= line@);
        assert(out.deep_view() =~~= Seq::<Seq<char>>::empty());
        assert(out.deep_view() + tokens_of(line@) =~~= tokens_of(line@));
    }
    while i < n
        invariant
            i <= n == line@.len(),
            tokens_of(line@) =~~= out.deep_view() + tokens_of(line@.skip(i as int)),
        decreases n - i,
    {
        let c = line.get_char(i);
        if c == ' ' {
            proof {
                assert(line@.skip(i as int).drop_first() =~= line@.skip(i as int + 1));
            }
            i += 1;
        } else {
            let mut j: usize = i + 1;
            while j < n && line.get_char(j) != ' '
                invariant
                    i < j <= n,
                    n == line@.len(),
                    forall|m: int| i <= m < j ==> line@[m] != ' ',
                decreases n - j,
            {
                j += 1;
            }
            let tok = line.substring_char(i, j).to_owned();
            proof {
                let tail = line@.skip(i as int);
                assert forall|m: int| 0 <= m < j - i as int implies tail[m] != ' ' by {
                    assert(tail[m] == line@[m + i]);
                }
                if (j as int) < n {
                    assert(tail[j - i as int] == line@[j as int]);
                }
                lemma_tokens_word(tail, j - i as int);
                assert(tail.take(j - i as int) =~= line@.subrange(i as int, j as int));
                assert(tail.skip(j - i as int) =~= line@.skip(j as int));
            }
            let ghost pre = out.deep_view();
            out.push(tok);
            proof {
                assert(out.deep_view() =~~= pre.push(tok@));
                assert(pre + (seq![tok@] + tokens_of(line@.skip(j as int))) =~~= pre.push(tok@)
                    + tokens_of(line@.skip(j as int)));
            }
            i = j;
        }
    }
    proof {
        assert(line@.skip(n as int) =~= Seq::<char>::empty());
        assert(tokens_of(line@.skip(n as int)) == Seq::<Seq<char>>::empty());
        assert(out.deep_view() + Seq::<Seq<char>>::empty() =~~= out.deep_view());
    }
    out
}

/// What a dispatched command asks the host to run: nothing, an animated
/// text playback, or the automaton loop.
#[derive(Debug, PartialEq, Eq)]
pub enum Task {
    Nothing,
    Play(String),
    Conway,
}

/// The mathematical shape of a task: played text as a character sequence.
pub enum TaskView {
    Nothing,
    Play(Seq<char>),
    Conway,
}

impl View for Task {
    type V = TaskView;

    open spec fn view(&self) -> TaskView {
        match self {
            Task::Nothing => TaskView::Nothing,
            Task::Play(s) => TaskView::Play(s@),
            Task::Conway => TaskView::Conway,
        }
    }
}

/// What the session asks the host to do about one input event: effects to
/// perform, then a task to run, then more effects.
pub struct Reaction {
    pub before: Vec<Effect>,
    pub task: Task,
    pub after: Vec<Effect>,
}

/// The stub answer for the filesystem-sounding commands.
pub open spec fn fs_stub_msg() -> Seq<char> {
    "Install 'HARD DRIVE' to activate 'FILE' module"@
}

/// The stub answer for the one command still under construction.
pub open spec fn productivity_stub_msg() -> Seq<char> {
    "'PRODUCTIVITY' module still in development"@
}

/// The answer for a command word the session does not know.
pub open spec fn unrecognized_msg(tok: Seq<char>) -> Seq<char> {
    "'"@ + tok + "' is not a recognized command. See 'help'."@
}

/// The line-break text the session prints.
pub open spec fn newline_text() -> Seq<char> {
    "\r\n"@
}

/// The prompt text the session prints after a line break.
pub open spec fn prompt_text() -> Seq<char> {
    "[ADMIN] > "@
}

/// The text printed to wipe one character off the host's screen.
pub open spec fn erase_text() -> Seq<char> {
    "\u{8} \u{8}"@
}

/// The effects of re-prompting: a line break, then the prompt.
pub open spec fn prompt_effects() -> Seq<EffectView> {
    seq![EffectView::Print(newline_text()), EffectView::Print(prompt_text())]
}

/// What a submitted line dispatches to: the effects to perform first and
/// the task to run.  A blank line does nothing at all; anything else
/// prints a line break and then selects by the first token: `help` plays
/// the help text, `conway` runs the automaton, the four
/// filesystem-sounding commands and `boomslang` play their stub answers,
/// and any other word plays the unrecognized-command answer naming it.
pub open spec fn dispatch(line: Seq<char>, help: Seq<char>) -> (Seq<EffectView>, TaskView) {
    let toks = tokens_of(line);
    if toks.len() == 0 {
        (Seq::<EffectView>::empty(), TaskView::Nothing)
    } else {
        let nl = seq![EffectView::Print(newline_text())];
        let t = toks[0];
        if t == "help"@ {
            (nl, TaskView::Play(help))
        } else if t == "conway"@ {
            (nl, TaskView::Conway)
        } else if t == "ls"@ || t == "cd"@ || t == "mkdir"@ || t == "rm"@ {
            (nl, TaskView::Play(fs_stub_msg()))
        } else if t == "boomslang"@ {
            (nl, TaskView::Play(productivity_stub_msg()))
        } else {
            (nl, TaskView::Play(unrecognized_msg(t)))
        }
    }
}

/// An effect that prints exactly `s`.
fn print_str(s: &str) -> (e: Effect)
    ensures
        e@ == EffectView::Print(s@),
{
    Effect::Print(s.to_owned())
}

/// The two re-prompt effects as a list the host can perform.
fn prompt_vec() -> (r: Vec<Effect>)
    ensures
        effect_views(r@) == prompt_effects(),
{
    let mut v: Vec<Effect> = Vec::new();
    v.push(print_str("\r\n"));
    v.push(print_str("[ADMIN] > "));
    proof {
        assert(effect_views(v@) =~= prompt_effects());
    }
    v
}

/// One terminal session: the line being typed, the pacing of animated
/// output, and the two texts handed in at startup — the welcome banner
/// and the help text.
pub struct VM {
    pub editor: LineEditor,
    pub char_time: u32,
    pub logo: String,
    pub help: String,
}

impl VM {
    /// A fresh session around the two startup texts: empty line, default
    /// pacing.
    pub fn new(logo: String, help: String) -> (vm: VM)
        ensures
            vm.editor.line@.len() == 0,
            vm.char_time == DEFAULT_PACING,
            vm.logo == logo,
            vm.help == help,
    {
        VM { editor: LineEditor::new(), char_time: DEFAULT_PACING, logo, help }
    }

    /// Dispatch a submitted line, as `dispatch` describes.
    pub fn command(&self, line: &str) -> (r: (Vec<Effect>, Task))
        ensures
            effect_views(r.0@) == dispatch(line@, self.help@).0,
            r.1@ == dispatch(line@, self.help@).1,
    {
        let toks = tokenize(line);
        if toks.len() == 0 {
            let r = (Vec::<Effect>::new(), Task::Nothing);
            proof {
                assert(effect_views(r.0@) =~= dispatch(line@, self.help@).0);
            }
            return r;
        }
        proof {
            assert(toks.deep_view()[0] == toks@[0]@);
        }
        let mut effs: Vec<Effect> = Vec::new();
        effs.push(print_str("\r\n"));
        proof {
            assert(effect_views(effs@) =~= seq![EffectView::Print(newline_text())]);
        }
        let tok = &toks[0];
        let task = if str_eq(tok.as_str(), "help") {
            Task::Play(self.help.clone())
        } else if str_eq(tok.as_str(), "conway") {
            Task::Conway
        } else if str_eq(tok.as_str(), "ls") || str_eq(tok.as_str(), "cd") || str_eq(
            tok.as_str(),
            "mkdir",
        ) || str_eq(tok.as_str(), "rm") {
            Task::Play(String::from_str("Install 'HARD DRIVE' to activate 'FILE' module"))
        } else if str_eq(tok.as_str(), "boomslang") {
            Task::Play(String::from_str("'PRODUCTIVITY' module still in development"))
        } else {
            let mut msg = String::from_str("'");
            msg.append(tok.as_str());
            msg.append("' is not a recognized command. See 'help'.");
            proof {
                assert(msg@ =~= unrecognized_msg(tok@));
            }
            Task::Play(msg)
        };
        (effs, task)
    }

    /// Play one line of animated text under the session's pacing, keeping
    /// the pacing the line's glyphs leave behind.
    pub fn play_line(&mut self, line: &str) -> (effs: Vec<Effect>)
        ensures
            effect_views(effs@) == line_effects(line@, old(self).char_time).0,
            final(self).char_time == line_effects(line@, old(self).char_time).1,
            final(self).editor == old(self).editor,
            final(self).logo == old(self).logo,
            final(self).help == old(self).help,
    {
        let r = play_line(line, self.char_time);
        self.char_time = r.1;
        r.0
    }

    /// React to one input event.
    ///
    /// The startup sentinel plays the banner and re-prompts.  A carriage
    /// return submits the line: its command runs between a possible line
    /// break and the re-prompt.  Delete erases one character when there is
    /// one.  The interrupt control prints `^C`, drops the line, and
    /// re-prompts.  Anything that starts with a printable character is
    /// appended to the line and echoed; everything else is ignored.
    pub fn handle_event(&mut self, event: &str) -> (r: Reaction)
        ensures
            final(self).logo == old(self).logo,
            final(self).help == old(self).help,
            final(self).char_time == old(self).char_time,
            event@ == "startup"@ ==> r.before@.len() == 0 && r.task@ == TaskView::Play(
                old(self).logo@,
            ) && effect_views(r.after@) == prompt_effects() && final(self).editor.line@.len() == 0,
            event@ == "\r"@ ==> effect_views(r.before@) == dispatch(
                old(self).editor.line@,
                old(self).help@,
            ).0 && r.task@ == dispatch(old(self).editor.line@, old(self).help@).1 && effect_views(
                r.after@,
            ) == prompt_effects() && final(self).editor.line@.len() == 0,
            event@ == "\x7f"@ && old(self).editor.line@.len() > 0 ==> effect_views(r.before@)
                == seq![EffectView::Print(erase_text())] && r.task@ == TaskView::Nothing
                && r.after@.len() == 0 && final(self).editor.line@ == old(
                self,
            ).editor.line@.drop_last(),
            event@ == "\x7f"@ && old(self).editor.line@.len() == 0 ==> r.before@.len() == 0
                && r.task@ == TaskView::Nothing && r.after@.len() == 0 && final(self).editor.line@
                == old(self).editor.line@,
            event@ == "\x03"@ ==> effect_views(r.before@) == seq![EffectView::Print("^C"@)]
                && r.task@ == TaskView::Nothing && effect_views(r.after@) == prompt_effects()
                && final(self).editor.line@.len() == 0,
            !is_special_event(event@) && printable_start(event@) ==> effect_views(r.before@)
                == seq![EffectView::Print(event@)] && r.task@ == TaskView::Nothing
                && r.after@.len() == 0 && final(self).editor.line@ == old(self).editor.line@
                + event@,
            !is_special_event(event@) && !printable_start(event@) ==> r.before@.len() == 0
                && r.task@ == TaskView::Nothing && r.after@.len() == 0 && final(self).editor.line@
                == old(self).editor.line@,
    {
        proof {
            reveal_strlit("startup");
            reveal_strlit("\r");
            reveal_strlit("\x7f");
            reveal_strlit("\x03");
            assert("startup"@.len() == 7);
            assert("\r"@.len() == 1 && "\r"@[0] == '\r');
            assert("\x7f"@.len() == 1 && "\x7f"@[0] == '\x7f');
            assert("\x03"@.len() == 1 && "\x03"@[0] == '\x03');
            assert("startup"@ != "\r"@ && "startup"@ != "\x7f"@ && "startup"@ != "\x03"@);
            assert("\r"@ != "\x7f"@ && "\r"@ != "\x03"@);
            assert("\x7f"@ != "\x03"@);
        }
        if str_eq(event, "startup") {
            self.editor.clear();
            Reaction { before: Vec::new(), task: Task::Play(self.logo.clone()), after: prompt_vec() }
        } else if str_eq(event, "\r") {
            let line = self.editor.take_and_clear();
            let (effs, task) = self.command(line.as_str());
            Reaction { before: effs, task, after: prompt_vec() }
        } else if str_eq(event, "\x7f") {
            let removed = self.editor.backspace();
            let mut before: Vec<Effect> = Vec::new();
            if removed {
                before.push(print_str("\u{8} \u{8}"));
            }
            proof {
                if old(self).editor.line@.len() > 0 {
                    assert(effect_views(before@) =~= seq![EffectView::Print(erase_text())]);
                }
            }
            Reaction { before, task: Task::Nothing, after: Vec::new() }
        } else if str_eq(event, "\x03") {
            self.editor.clear();
            let mut before: Vec<Effect> = Vec::new();
            before.push(print_str("^C"));
            proof {
                assert(effect_views(before@) =~= seq![EffectView::Print("^C"@)]);
            }
            Reaction { before, task: Task::Nothing, after: prompt_vec() }
        } else {
            let appended = self.editor.append(event);
            let mut before: Vec<Effect> = Vec::new();
            if appended {
                before.push(print_str(event));
            }
            proof {
                if printable_start(event@) {
                    assert(effect_views(before@) =~= seq![EffectView::Print(event@)]);
                }
            }
            Reaction { before, task: Task::Nothing, after: Vec::new() }
        }
    }
}

/// The events with a meaning of their own: the startup sentinel, submit,
/// delete, and interrupt.
pub open spec fn is_special_event(e: Seq<char>) -> bool {
    e == "startup"@ || e == "\r"@ || e == "\x7f"@ || e == "\x03"@
}

} // verus!
