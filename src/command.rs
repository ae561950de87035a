//! The commands a user types, and the parser that reads them from a line.

use vstd::prelude::*;
use vstd::string::*;
use crate::text::{
    all_digits, digits_value, is_digit, join_from, join_spaced, parse_u32, same_text, split_words,
    upper_of, uppercase, views, words,
};

verus! {

pub enum Command {
    All,
    Add(String),
    Finish(u32),
    Clear,
    Help,
    Save,
    Quit,
}

/// What a command means, with its text as a sequence of characters.
pub enum CommandView {
    All,
    Add(Seq<char>),
    Finish(u32),
    Clear,
    Help,
    Save,
    Quit,
}

impl View for Command {
    type V = CommandView;

    open spec fn view(&self) -> CommandView {
        match self {
            Command::All => CommandView::All,
            Command::Add(t) => CommandView::Add(t@),
            Command::Finish(id) => CommandView::Finish(*id),
            Command::Clear => CommandView::Clear,
            Command::Help => CommandView::Help,
            Command::Save => CommandView::Save,
            Command::Quit => CommandView::Quit,
        }
    }
}

pub open spec fn command_view(c: Option<Command>) -> Option<CommandView> {
    match c {
        Some(c) => Some(c@),
        None => None,
    }
}

/// The command that the upper-cased keyword `key` selects, with `param`
/// the rest of the line. `None` for an unknown keyword, `ADD` without text,
/// and `FINISH` without a parameter of decimal digits that fits a `u32`.
pub open spec fn command_for(key: Seq<char>, param: Seq<char>) -> Option<CommandView> {
    if key == "ALL"@ {
        Some(CommandView::All)
    } else if key == "ADD"@ {
        if param.len() > 0 {
            Some(CommandView::Add(param))
        } else {
            None
        }
    } else if key == "FINISH"@ {
        if param.len() > 0 && all_digits(param) && digits_value(param) <= u32::MAX {
            Some(CommandView::Finish(digits_value(param) as u32))
        } else {
            None
        }
    } else if key == "CLEAR"@ {
        Some(CommandView::Clear)
    } else if key == "HELP"@ {
        Some(CommandView::Help)
    } else if key == "SAVE"@ {
        Some(CommandView::Save)
    } else if key == "QUIT"@ {
        Some(CommandView::Quit)
    } else {
        None
    }
}

/// The command that `line` spells: its first word, upper-cased, selects the
/// keyword, and the other words joined by single spaces form the parameter.
/// `None` for a line without words.
pub open spec fn parse(line: Seq<char>) -> Option<CommandView> {
    let ws = words(line);
    if ws.len() == 0 {
        None
    } else {
        command_for(upper_of(ws[0]), join_spaced(ws.skip(1)))
    }
}

/// The lines of the help text.
pub open spec fn help_text() -> Seq<Seq<char>> {
    seq![
        ""@,
        "Type 'ALL' to list all tasks"@,
        "Type 'ADD <task>' to add a task"@,
        "Type 'FINISH <id>' finishes a task"@,
        "Type 'CLEAR' to clear the screen"@,
        "Type 'HELP' to show this message"@,
        "Type 'SAVE' to save all tasks"@,
        "Type 'QUIT' to exit"@,
        ""@,
    ]
}

impl Command {
    pub fn from_input(input: &str) -> (r: Option<Command>)
        ensures
            command_view(r) == parse(input@),
    {
        let ws = split_words(input);
        if ws.len() == 0 {
            return None;
        }
        let parameter = join_from(&ws, 1);
        assert(views(ws@).skip(1) =~= words(input@).skip(1));
        assert(views(ws@)[0] == ws@[0]@);
        let key = uppercase(ws[0].as_str());
        Command::from_keyword(key.as_str(), parameter)
    }

    /// The command for the upper-cased keyword `key` and the parameter
    /// `parameter`, the rest of the line.
    pub fn from_keyword(key: &str, parameter: String) -> (r: Option<Command>)
        ensures
            command_view(r) == command_for(key@, parameter@),
    {
        if same_text(key, "ALL") {
            Some(Command::All)
        } else if same_text(key, "ADD") {
            if parameter.as_str().unicode_len() > 0 {
                Some(Command::Add(parameter))
            } else {
                None
            }
        } else if same_text(key, "FINISH") {
            if parameter.as_str().unicode_len() > 0 && Command::is_numeric(&parameter) {
                match parse_u32(parameter.as_str()) {
                    Some(id) => Some(Command::Finish(id)),
                    None => None,
                }
            } else {
                None
            }
        } else if same_text(key, "CLEAR") {
            Some(Command::Clear)
        } else if same_text(key, "HELP") {
            Some(Command::Help)
        } else if same_text(key, "SAVE") {
            Some(Command::Save)
        } else if same_text(key, "QUIT") {
            Some(Command::Quit)
        } else {
            None
        }
    }

    /// Whether every character of `s` is a decimal digit (true of the empty string).
    pub fn is_numeric(s: &String) -> (r: bool)
        ensures
            r == all_digits(s@),
    {
        let n = s.as_str().unicode_len();
        let mut i: usize = 0;
        while i < n
            invariant
                n == s@.len(),
                i <= n,
                forall|j: int| 0 <= j < i ==> is_digit(#[trigger] s@[j]),
            decreases n - i,
        {
            let c = s.as_str().get_char(i);
            if !(0x30 <= c as u32 && c as u32 <= 0x39) {
                return false;
            }
            i = i + 1;
        }
        true
    }

    /// The help text, one line per element, with a blank line before and after.
    pub fn help() -> (r: Vec<String>)
        ensures
            views(r@) == help_text(),
    {
        let mut r: Vec<String> = Vec::new();
        r.push("".to_owned());
        r.push("Type 'ALL' to list all tasks".to_owned());
        r.push("Type 'ADD <task>' to add a task".to_owned());
        r.push("Type 'FINISH <id>' finishes a task".to_owned());
        r.push("Type 'CLEAR' to clear the screen".to_owned());
        r.push("Type 'HELP' to show this message".to_owned());
        r.push("Type 'SAVE' to save all tasks".to_owned());
        r.push("Type 'QUIT' to exit".to_owned());
        r.push("".to_owned());
        assert(views(r@) =~= help_text());
        r
    }
}

} // verus!
