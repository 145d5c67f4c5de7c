//! Which terminal or editor to open a worktree in. The supported
//! applications form a closed set, plus a custom command that must pass
//! `validate_custom_command` before it is ever spawned.

use vstd::prelude::*;
use crate::security::{command_text_verdict, not_found_msg, validate_custom_command};
use crate::text::{chars_of, message, slice_eq, string_of};

verus! {

/// A terminal application.
#[derive(Debug, Clone, PartialEq, Eq)]
pub enum Terminal {
    AppleTerminal,
    Ghostty,
    Alacritty,
    Kitty,
    ITerm,
    Warp,
    /// An executable that passed `validate_custom_command`.
    Custom(String),
}

/// An editor application.
#[derive(Debug, Clone, PartialEq, Eq)]
pub enum Editor {
    VsCode,
    Cursor,
    Zed,
    Antigravity,
    /// An executable that passed `validate_custom_command`.
    Custom(String),
}

pub open spec fn custom_required_msg() -> Seq<char> {
    "custom_command is required when app is 'custom'"@
}

/// The terminal named `app`, when it is one of the built-in ones.
pub open spec fn builtin_terminal(app: Seq<char>) -> Option<Terminal> {
    if app == "terminal"@ {
        Some(Terminal::AppleTerminal)
    } else if app == "ghostty"@ {
        Some(Terminal::Ghostty)
    } else if app == "alacritty"@ {
        Some(Terminal::Alacritty)
    } else if app == "kitty"@ {
        Some(Terminal::Kitty)
    } else if app == "iterm"@ {
        Some(Terminal::ITerm)
    } else if app == "warp"@ {
        Some(Terminal::Warp)
    } else {
        None
    }
}

/// The editor named `app`, when it is one of the built-in ones.
pub open spec fn builtin_editor(app: Seq<char>) -> Option<Editor> {
    if app == "vscode"@ {
        Some(Editor::VsCode)
    } else if app == "cursor"@ {
        Some(Editor::Cursor)
    } else if app == "zed"@ {
        Some(Editor::Zed)
    } else if app == "antigravity"@ {
        Some(Editor::Antigravity)
    } else {
        None
    }
}

fn is(app: &str, name: &str) -> (r: bool)
    ensures
        r == (app@ == name@),
{
    let a = chars_of(app);
    let n = chars_of(name);
    slice_eq(a.as_slice(), n.as_slice())
}

/// Checks a custom command for use as an application (see
/// `validate_custom_command`).
fn custom_app(custom_command: Option<&str>) -> (r: Result<String, String>)
    ensures
        match custom_command {
            None => r matches Err(e) && e@ == custom_required_msg(),
            Some(cmd) => match command_text_verdict(cmd@) {
                Err(m) => r matches Err(e) && e@ == m,
                Ok(()) => match r {
                    Ok(c) => c@ == cmd@,
                    Err(e) => e@ == not_found_msg(cmd@),
                },
            },
        },
{
    match custom_command {
        None => Err("custom_command is required when app is 'custom'".to_string()),
        Some(cmd) => match validate_custom_command(cmd) {
            Ok(()) => Ok(cmd.to_string()),
            Err(e) => Err(e),
        },
    }
}

/// The terminal that `app` names. `"custom"` needs a custom command, which
/// is validated; any other unknown name is an error.
pub fn terminal_choice(app: &str, custom_command: Option<&str>) -> (r: Result<Terminal, String>)
    ensures
        match builtin_terminal(app@) {
            Some(t) => r == Ok::<Terminal, String>(t),
            None => if app@ == "custom"@ {
                match custom_command {
                    None => r matches Err(e) && e@ == custom_required_msg(),
                    Some(cmd) => match command_text_verdict(cmd@) {
                        Err(m) => r matches Err(e) && e@ == m,
                        Ok(()) => match r {
                            Ok(Terminal::Custom(c)) => c@ == cmd@,
                            Ok(_) => false,
                            Err(e) => e@ == not_found_msg(cmd@),
                        },
                    },
                }
            } else {
                r matches Err(e) && e@ == "Unknown terminal app: "@ + app@
            },
        },
{
    if is(app, "terminal") {
        Ok(Terminal::AppleTerminal)
    } else if is(app, "ghostty") {
        Ok(Terminal::Ghostty)
    } else if is(app, "alacritty") {
        Ok(Terminal::Alacritty)
    } else if is(app, "kitty") {
        Ok(Terminal::Kitty)
    } else if is(app, "iterm") {
        Ok(Terminal::ITerm)
    } else if is(app, "warp") {
        Ok(Terminal::Warp)
    } else if is(app, "custom") {
        match custom_app(custom_command) {
            Ok(c) => Ok(Terminal::Custom(c)),
            Err(e) => Err(e),
        }
    } else {
        Err(message("Unknown terminal app: ", app))
    }
}

/// The editor that `app` names, as `terminal_choice` does for terminals.
pub fn editor_choice(app: &str, custom_command: Option<&str>) -> (r: Result<Editor, String>)
    ensures
        match builtin_editor(app@) {
            Some(t) => r == Ok::<Editor, String>(t),
            None => if app@ == "custom"@ {
                match custom_command {
                    None => r matches Err(e) && e@ == custom_required_msg(),
                    Some(cmd) => match command_text_verdict(cmd@) {
                        Err(m) => r matches Err(e) && e@ == m,
                        Ok(()) => match r {
                            Ok(Editor::Custom(c)) => c@ == cmd@,
                            Ok(_) => false,
                            Err(e) => e@ == not_found_msg(cmd@),
                        },
                    },
                }
            } else {
                r matches Err(e) && e@ == "Unknown editor app: "@ + app@
            },
        },
{
    if is(app, "vscode") {
        Ok(Editor::VsCode)
    } else if is(app, "cursor") {
        Ok(Editor::Cursor)
    } else if is(app, "zed") {
        Ok(Editor::Zed)
    } else if is(app, "antigravity") {
        Ok(Editor::Antigravity)
    } else if is(app, "custom") {
        match custom_app(custom_command) {
            Ok(c) => Ok(Editor::Custom(c)),
            Err(e) => Err(e),
        }
    } else {
        Err(message("Unknown editor app: ", app))
    }
}

/// Each `"` of `s` preceded by a backslash.
pub open spec fn escape_quotes_of(s: Seq<char>) -> Seq<char>
    decreases s.len(),
{
    if s.len() == 0 {
        Seq::empty()
    } else if s.last() == '"' {
        escape_quotes_of(s.drop_last()) + seq!['\\', '"']
    } else {
        escape_quotes_of(s.drop_last()).push(s.last())
    }
}

/// `s` with each `"` escaped, for a double-quoted script string.
pub fn escape_quotes(s: &str) -> (r: String)
    ensures
        r@ == escape_quotes_of(s@),
{
    let cs = chars_of(s);
    let mut out: Vec<char> = Vec::new();
    let mut i: usize = 0;
    while i < cs.len()
        invariant
            i <= cs.len(),
            cs@ == s@,
            out@ == escape_quotes_of(cs@.subrange(0, i as int)),
        decreases cs.len() - i,
    {
        assert(cs@.subrange(0, i + 1).drop_last() == cs@.subrange(0, i as int));
        if cs[i] == '"' {
            out.push('\\');
            out.push('"');
        } else {
            out.push(cs[i]);
        }
        i = i + 1;
    }
    assert(cs@.subrange(0, cs.len() as int) == cs@);
    string_of(out.as_slice())
}

} // verus!
