//! What pressing Enter in the message box does: refuse in a session taken
//! over by another process, hold the message while a turn streams, run a
//! `:` command line, or record the message and start a turn; and the
//! usage a command shows when its argument is missing.

use crate::fmt::{clip40, truncate_for_hint};
use crate::text::{chars_of, extend_str, first_line, first_non_ws, lines, lines_of, string_of, trim, trim_chars, trim_start};
use vstd::prelude::*;

verus! {

/// What Enter in the message box does.
#[derive(Debug, Clone, PartialEq, Eq)]
pub enum SubmitAction {
    /// The session was taken over: nothing is sent; show the hint.
    Blocked(String),
    /// The box is blank: nothing happens.
    Ignore,
    /// A turn is streaming: hold the message until it ends; show the hint.
    Queue { text: String, hint: String },
    /// A single line starting with `:`: parse and run it as a command.
    Command(String),
    /// Record the message and start a turn; a session's first message also
    /// names it.
    Send { text: String, names_session: bool },
}

/// A single line whose first non-blank character is `:`.
pub open spec fn is_command_line(text: Seq<char>) -> bool {
    lines(text).len() == 1 && trim_start(text).len() > 0 && trim_start(text)[0] == ':'
}

/// Decide what Enter does with the box's `text` (its lines joined by
/// newlines), given whether the session was taken over (`yielded`), a turn
/// is streaming, and the session already holds a user message.
pub fn submit_action(yielded: bool, streaming: bool, text: &str, has_user_message: bool) -> (r: SubmitAction)
    ensures
        yielded ==> (r matches SubmitAction::Blocked(h) && h@
            == "session taken over — :session new or :session resume"@),
        !yielded && trim(text@).len() == 0 ==> r == SubmitAction::Ignore,
        !yielded && streaming && trim(text@).len() > 0 ==> (r matches SubmitAction::Queue { text: t, hint: h }
            && t@ == text@ && h@ == "queued: "@ + clip40(first_line(text@))),
        !yielded && !streaming && trim(text@).len() > 0 && is_command_line(text@) ==> (r matches SubmitAction::Command(
            t,
        ) && t@ == text@),
        !yielded && !streaming && trim(text@).len() > 0 && !is_command_line(text@) ==> (r matches SubmitAction::Send {
            text: t,
            names_session: n,
        } && t@ == text@ && n == !has_user_message),
{
    if yielded {
        return SubmitAction::Blocked(String::from_str("session taken over — :session new or :session resume"));
    }
    let v = chars_of(text);
    if trim_chars(&v).len() == 0 {
        return SubmitAction::Ignore;
    }
    if streaming {
        let mut h = chars_of("queued: ");
        let cut = truncate_for_hint(text);
        extend_str(&mut h, cut.as_str());
        return SubmitAction::Queue { text: String::from_str(text), hint: string_of(&h) };
    }
    let single = lines_of(&v).len() == 1;
    let colon = match first_non_ws(&v) {
        Some(c) => c == ':',
        None => false,
    };
    if single && colon {
        SubmitAction::Command(String::from_str(text))
    } else {
        SubmitAction::Send { text: String::from_str(text), names_session: !has_user_message }
    }
}

/// A command that needs an argument.
#[derive(Debug, Clone, Copy, PartialEq, Eq, Structural)]
pub enum ArgCommand {
    /// `:mode <name>`
    SwitchMode,
    /// `:mode import <github-url>`
    ModeImport,
    /// `:mode update <name>`
    ModeUpdate,
    /// `:worktree <name>`
    Worktree,
}

/// The usage line for a command.
pub open spec fn usage_of(cmd: ArgCommand) -> Seq<char> {
    match cmd {
        ArgCommand::SwitchMode => "usage: :mode <name> · :mode reload"@,
        ArgCommand::ModeImport => "usage: :mode import <github-url>"@,
        ArgCommand::ModeUpdate => "usage: :mode update <name>"@,
        ArgCommand::Worktree => "usage: :worktree <name> · :worktree exit"@,
    }
}

/// The usage hint a command shows when its argument is blank; `None` lets
/// it run.
pub fn command_usage(cmd: ArgCommand, arg: &str) -> (r: Option<String>)
    ensures
        trim(arg@).len() == 0 ==> (r matches Some(u) && u@ == usage_of(cmd)),
        trim(arg@).len() > 0 ==> r is None,
{
    if trim_chars(&chars_of(arg)).len() > 0 {
        return None;
    }
    let u = match cmd {
        ArgCommand::SwitchMode => "usage: :mode <name> · :mode reload",
        ArgCommand::ModeImport => "usage: :mode import <github-url>",
        ArgCommand::ModeUpdate => "usage: :mode update <name>",
        ArgCommand::Worktree => "usage: :worktree <name> · :worktree exit",
    };
    Some(String::from_str(u))
}

} // verus!
