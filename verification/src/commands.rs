//! The control commands sent to the multiplexer, and the argument vector
//! that each one stands for.

use crate::decimal::{decimal, decimal_string};
use vstd::prelude::*;

verus! {

/// Name of the multiplexer's executable.
pub const PROGRAM: &'static str = "zellij";

/// One action on a running session. Tab indices count from 1, in the order
/// in which the tabs were created.
#[derive(Debug, Clone, Copy, PartialEq, Eq)]
pub enum ZellijCommand<'a> {
    NewTab { session_name: &'a str, tab_name: Option<&'a str> },
    GoToTab { session_name: &'a str, tab_index: usize },
    RenameTab { session_name: &'a str, new_name: &'a str },
    WriteChars { session_name: &'a str, chars: &'a str },
}

/// Mathematical model of a [`ZellijCommand`].
pub enum CommandView {
    NewTab { session_name: Seq<char>, tab_name: Option<Seq<char>> },
    GoToTab { session_name: Seq<char>, tab_index: nat },
    RenameTab { session_name: Seq<char>, new_name: Seq<char> },
    WriteChars { session_name: Seq<char>, chars: Seq<char> },
}

impl<'a> View for ZellijCommand<'a> {
    type V = CommandView;

    open spec fn view(&self) -> CommandView {
        match *self {
            ZellijCommand::NewTab { session_name, tab_name } => CommandView::NewTab {
                session_name: session_name@,
                tab_name: match tab_name {
                    Some(name) => Some(name@),
                    None => None,
                },
            },
            ZellijCommand::GoToTab { session_name, tab_index } => CommandView::GoToTab {
                session_name: session_name@,
                tab_index: tab_index as nat,
            },
            ZellijCommand::RenameTab { session_name, new_name } => CommandView::RenameTab {
                session_name: session_name@,
                new_name: new_name@,
            },
            ZellijCommand::WriteChars { session_name, chars } => CommandView::WriteChars {
                session_name: session_name@,
                chars: chars@,
            },
        }
    }
}

impl CommandView {
    /// The session that the command addresses.
    pub open spec fn session_name(self) -> Seq<char> {
        match self {
            CommandView::NewTab { session_name, .. } => session_name,
            CommandView::GoToTab { session_name, .. } => session_name,
            CommandView::RenameTab { session_name, .. } => session_name,
            CommandView::WriteChars { session_name, .. } => session_name,
        }
    }

    /// What follows `action` on the command line: the action's name and its
    /// own parameters. Text to be written gets a line feed at its end, so
    /// that the shell in the tab runs the line.
    pub open spec fn action_args(self) -> Seq<Seq<char>> {
        match self {
            CommandView::NewTab { tab_name: None, .. } => seq!["new-tab"@],
            CommandView::NewTab { tab_name: Some(name), .. } => seq!["new-tab"@, "--name"@, name],
            CommandView::GoToTab { tab_index, .. } => seq!["go-to-tab"@, decimal(tab_index)],
            CommandView::RenameTab { new_name, .. } => seq!["rename-tab"@, new_name],
            CommandView::WriteChars { chars, .. } => seq!["write-chars"@, chars.push('\n')],
        }
    }

    /// The whole argument vector: `--session <name> action`, then the action.
    pub open spec fn args(self) -> Seq<Seq<char>> {
        seq!["--session"@, self.session_name(), "action"@] + self.action_args()
    }
}

/// The arguments that make the multiplexer attach to the session of that
/// name, creating it if it is not there.
pub open spec fn attach_args_spec(session_name: Seq<char>) -> Seq<Seq<char>> {
    seq!["attach"@, "--create"@, session_name]
}

/// The arguments of the query for the sessions that exist.
pub open spec fn list_sessions_args_spec() -> Seq<Seq<char>> {
    seq!["list-sessions"@]
}

impl<'a> ZellijCommand<'a> {
    /// The session that the command addresses.
    pub fn session_name(&self) -> (name: &'a str)
        ensures
            name@ == self@.session_name(),
    {
        match *self {
            ZellijCommand::NewTab { session_name, .. } => session_name,
            ZellijCommand::GoToTab { session_name, .. } => session_name,
            ZellijCommand::RenameTab { session_name, .. } => session_name,
            ZellijCommand::WriteChars { session_name, .. } => session_name,
        }
    }

    /// Builds the argument vector with which the multiplexer is started to
    /// carry the command out.
    pub fn args(&self) -> (args: Vec<String>)
        ensures
            args.deep_view() == self@.args(),
    {
        let mut args: Vec<String> = Vec::new();
        args.push(String::from_str("--session"));
        args.push(String::from_str(self.session_name()));
        args.push(String::from_str("action"));
        match *self {
            ZellijCommand::NewTab { tab_name, .. } => {
                args.push(String::from_str("new-tab"));
                if let Some(name) = tab_name {
                    args.push(String::from_str("--name"));
                    args.push(String::from_str(name));
                }
            },
            ZellijCommand::GoToTab { tab_index, .. } => {
                args.push(String::from_str("go-to-tab"));
                args.push(decimal_string(tab_index));
            },
            ZellijCommand::RenameTab { new_name, .. } => {
                args.push(String::from_str("rename-tab"));
                args.push(String::from_str(new_name));
            },
            ZellijCommand::WriteChars { chars, .. } => {
                proof {
                    reveal_strlit("\n");
                }
                let line = String::from_str(chars).concat("\n");
                assert(line@ =~= chars@.push('\n'));
                args.push(String::from_str("write-chars"));
                args.push(line);
            },
        }
        assert(args.deep_view() =~= self@.args());
        args
    }
}

/// Builds the arguments that start the interactive session itself.
pub fn attach_args(session_name: &str) -> (args: Vec<String>)
    ensures
        args.deep_view() == attach_args_spec(session_name@),
{
    let mut args: Vec<String> = Vec::new();
    args.push(String::from_str("attach"));
    args.push(String::from_str("--create"));
    args.push(String::from_str(session_name));
    assert(args.deep_view() =~= attach_args_spec(session_name@));
    args
}

/// Builds the arguments of the query for the sessions that exist.
pub fn list_sessions_args() -> (args: Vec<String>)
    ensures
        args.deep_view() == list_sessions_args_spec(),
{
    let mut args: Vec<String> = Vec::new();
    args.push(String::from_str("list-sessions"));
    assert(args.deep_view() =~= list_sessions_args_spec());
    args
}

} // verus!
