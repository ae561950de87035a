//! One step of an interactive session: a line of input, the command it
//! spells, its effect on the task store, and what the session prints.

use vstd::prelude::*;
use vstd::string::*;
use crate::command::{help_text, parse, Command, CommandView};
use crate::tasks::{finished, listing_lines, Config, TaskView};
use crate::text::views;

verus! {

/// What the session itself has to do after a line, beyond printing.
#[derive(PartialEq, Eq, Structural, Clone, Copy, Debug)]
pub enum Effect {
    Nothing,
    ClearScreen,
    Save,
    Quit,
}

/// What one line produces: lines for standard output, notices for the
/// error stream, and the effect to carry out first.
pub struct Reply {
    pub out: Vec<String>,
    pub err: Vec<String>,
    pub effect: Effect,
}

pub struct ReplyView {
    pub out: Seq<Seq<char>>,
    pub err: Seq<Seq<char>>,
    pub effect: Effect,
}

impl View for Reply {
    type V = ReplyView;

    open spec fn view(&self) -> ReplyView {
        ReplyView { out: views(self.out@), err: views(self.err@), effect: self.effect }
    }
}

/// The line printed above a listing.
pub open spec fn separator() -> Seq<char> {
    "<=============================================>"@
}

pub open spec fn input_error() -> Seq<char> {
    "Input error!"@
}

pub open spec fn not_found() -> Seq<char> {
    "Can't finish what doesn't exist"@
}

pub open spec fn store_full() -> Seq<char> {
    "Can't add more tasks"@
}

/// The tasks after the command `c`.
pub open spec fn next_tasks(ts: Seq<TaskView>, c: Option<CommandView>) -> Seq<TaskView> {
    match c {
        Some(CommandView::Add(t)) => if ts.len() < u32::MAX {
            ts.push((t, (ts.len() + 1) as u32))
        } else {
            ts
        },
        Some(CommandView::Finish(id)) => finished(ts, id),
        _ => ts,
    }
}

/// A reply of `out` and `err`, with no effect.
pub open spec fn printed(out: Seq<Seq<char>>, err: Seq<Seq<char>>) -> ReplyView {
    ReplyView { out, err, effect: Effect::Nothing }
}

/// What the session prints and does for the command `c` on tasks `ts`.
/// Every reply but that to `QUIT` ends with a blank line.
pub open spec fn reply_for(ts: Seq<TaskView>, c: Option<CommandView>) -> ReplyView {
    match c {
        None => printed(seq![seq![]], seq![input_error()]),
        Some(CommandView::All) => printed(
            seq![separator()] + listing_lines(ts) + seq![seq![]],
            seq![],
        ),
        Some(CommandView::Add(t)) => if ts.len() < u32::MAX {
            printed(seq![seq![]], seq![])
        } else {
            printed(seq![seq![]], seq![store_full()])
        },
        Some(CommandView::Finish(id)) => if 1 <= id && id <= ts.len() {
            printed(seq![seq![]], seq![])
        } else {
            printed(seq![seq![]], seq![not_found()])
        },
        Some(CommandView::Clear) => ReplyView {
            out: seq![seq![]],
            err: seq![],
            effect: Effect::ClearScreen,
        },
        Some(CommandView::Help) => printed(help_text() + seq![seq![]], seq![]),
        Some(CommandView::Save) => ReplyView { out: seq![seq![]], err: seq![], effect: Effect::Save },
        Some(CommandView::Quit) => ReplyView { out: seq![], err: seq![], effect: Effect::Quit },
    }
}

fn one_line(s: &str) -> (r: Vec<String>)
    ensures
        views(r@) == seq![s@],
{
    let mut r: Vec<String> = Vec::new();
    r.push(s.to_owned());
    assert(views(r@) =~= seq![s@]);
    r
}

fn blank() -> (r: Vec<String>)
    ensures
        views(r@) == seq![Seq::<char>::empty()],
{
    let mut r: Vec<String> = Vec::new();
    r.push(String::new());
    assert(views(r@) =~= seq![Seq::<char>::empty()]);
    r
}

impl Config {
    /// Handles one line of input: parses it, applies the command to the
    /// store, and says what to print and do.
    pub fn step(&mut self, line: &str) -> (r: Reply)
        requires
            old(self).wf(),
        ensures
            final(self).wf(),
            final(self)@ == next_tasks(old(self)@, parse(line@)),
            r@ == reply_for(old(self)@, parse(line@)),
    {
        let cmd = Command::from_input(line);
        match cmd {
            None => Reply { out: blank(), err: one_line("Input error!"), effect: Effect::Nothing },
            Some(Command::All) => {
                let mut out = one_line("<=============================================>");
                let mut listed = self.listing();
                out.append(&mut listed);
                let mut end = blank();
                out.append(&mut end);
                let r = Reply { out, err: Vec::new(), effect: Effect::Nothing };
                assert(r@.out =~= seq![separator()] + listing_lines(self@) + seq![seq![]]);
                assert(r@.err =~= seq![]);
                r
            },
            Some(Command::Add(task)) => {
                if self.len() < u32::MAX as usize {
                    self.add(task);
                    let r = Reply { out: blank(), err: Vec::new(), effect: Effect::Nothing };
                    assert(r@.err =~= seq![]);
                    r
                } else {
                    Reply { out: blank(), err: one_line("Can't add more tasks"), effect: Effect::Nothing }
                }
            },
            Some(Command::Finish(id)) => {
                if self.finish(id) {
                    let r = Reply { out: blank(), err: Vec::new(), effect: Effect::Nothing };
                    assert(r@.err =~= seq![]);
                    r
                } else {
                    Reply {
                        out: blank(),
                        err: one_line("Can't finish what doesn't exist"),
                        effect: Effect::Nothing,
                    }
                }
            },
            Some(Command::Clear) => {
                let r = Reply { out: blank(), err: Vec::new(), effect: Effect::ClearScreen };
                assert(r@.err =~= seq![]);
                r
            },
            Some(Command::Help) => {
                let mut out = Command::help();
                let mut end = blank();
                out.append(&mut end);
                let r = Reply { out, err: Vec::new(), effect: Effect::Nothing };
                assert(r@.out =~= help_text() + seq![seq![]]);
                assert(r@.err =~= seq![]);
                r
            },
            Some(Command::Save) => {
                let r = Reply { out: blank(), err: Vec::new(), effect: Effect::Save };
                assert(r@.err =~= seq![]);
                r
            },
            Some(Command::Quit) => {
                let r = Reply { out: Vec::new(), err: Vec::new(), effect: Effect::Quit };
                assert(r@.out =~= seq![]);
                assert(r@.err =~= seq![]);
                r
            },
        }
    }
}

} // verus!
