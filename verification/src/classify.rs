//! The coarse read/write classification of an invocation.
//!
//! The classification is advisory: it looks at the first words of a shell
//! command and parses no shell syntax.

use crate::json::{Json, JsonView};
use crate::text::{chars_of, has_prefix, str_eq, trimmed, trimmed_is};
use vstd::prelude::*;
use vstd::string::*;

verus! {

/// How risky an invocation looks.
#[derive(Debug, Clone, Copy, PartialEq, Eq, Structural)]
pub enum Risk {
    /// The command only inspects the machine.
    Read,
    /// Anything else.
    Write,
}

/// The one command whose arguments are looked at.
pub open spec fn shell_command_name() -> Seq<char> {
    "system.run"@
}

/// The shell command inside the arguments of a shell invocation: the member
/// `command` where it is a string, its last element where it is a list that
/// ends in a string, and the empty text otherwise.
pub open spec fn shell_command(args: JsonView) -> Seq<char> {
    match args.get("command"@) {
        Some(JsonView::Str(s)) => s,
        Some(JsonView::Array(items)) => if items.len() > 0 && items.last() is Str {
            items.last()->Str_0
        } else {
            Seq::empty()
        },
        _ => Seq::empty(),
    }
}

/// Whether a shell command begins with one of the read-only utilities, or is
/// one of the status commands and nothing else.
pub open spec fn is_read_only(cmd: Seq<char>) -> bool {
    ||| "cat "@.is_prefix_of(cmd)
    ||| "ls "@.is_prefix_of(cmd)
    ||| "head "@.is_prefix_of(cmd)
    ||| "tail "@.is_prefix_of(cmd)
    ||| "wc "@.is_prefix_of(cmd)
    ||| "grep "@.is_prefix_of(cmd)
    ||| "find "@.is_prefix_of(cmd)
    ||| "which "@.is_prefix_of(cmd)
    ||| "echo "@.is_prefix_of(cmd)
    ||| "ps "@.is_prefix_of(cmd)
    ||| "df "@.is_prefix_of(cmd)
    ||| "free "@.is_prefix_of(cmd)
    ||| trimmed(cmd) == "date"@
    ||| trimmed(cmd) == "uname"@
    ||| trimmed(cmd) == "uptime"@
    ||| trimmed(cmd) == "hostname"@
}

/// The risk of a command with its arguments: `Read` for a shell invocation of
/// a read-only command, `Write` for everything else.
pub open spec fn classify(command: Seq<char>, args: JsonView) -> Risk {
    if command == shell_command_name() && is_read_only(shell_command(args)) {
        Risk::Read
    } else {
        Risk::Write
    }
}

/// Extracts the shell command from the arguments of a shell invocation.
pub fn extract_shell_command(args: &Json) -> (cmd: String)
    ensures
        cmd@ == shell_command(args@),
{
    match args.get("command") {
        Some(Json::Str(s)) => s.clone(),
        Some(Json::Array(items)) => {
            proof {
                crate::json::lemma_array_view(*items);
            }
            if items.len() > 0 {
                match &items[items.len() - 1] {
                    Json::Str(s) => s.clone(),
                    _ => String::new(),
                }
            } else {
                String::new()
            }
        },
        _ => String::new(),
    }
}

/// Tests a shell command against the read-only list.
pub fn command_is_read_only(cmd: &str) -> (r: bool)
    ensures
        r == is_read_only(cmd@),
{
    let text = chars_of(cmd);
    has_prefix(&text, "cat ") || has_prefix(&text, "ls ") || has_prefix(&text, "head ")
        || has_prefix(&text, "tail ") || has_prefix(&text, "wc ") || has_prefix(&text, "grep ")
        || has_prefix(&text, "find ") || has_prefix(&text, "which ") || has_prefix(&text, "echo ")
        || has_prefix(&text, "ps ") || has_prefix(&text, "df ") || has_prefix(&text, "free ")
        || trimmed_is(&text, "date") || trimmed_is(&text, "uname") || trimmed_is(&text, "uptime")
        || trimmed_is(&text, "hostname")
}

/// Classifies an invocation by its command name and arguments.
pub fn classify_invoke(command: &str, args: &Json) -> (risk: Risk)
    ensures
        risk == classify(command@, args@),
{
    if str_eq(command, "system.run") {
        let cmd = extract_shell_command(args);
        if command_is_read_only(cmd.as_str()) {
            Risk::Read
        } else {
            Risk::Write
        }
    } else {
        Risk::Write
    }
}

} // verus!
