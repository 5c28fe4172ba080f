//! The lines of the application's log files.
//!
//! The functions here say what is to be written where; writing it is the
//! caller's part.

use crate::clock::now_rfc3339_millis;
use crate::text::{
    chars_of, contains_char, join_lines, joined, lines_of, lines_view, split_lines,
    string_from_chars,
};
use vstd::prelude::*;
use vstd::string::*;

verus! {

/// The number of lines from which on a log file is shortened.
pub const MAX_LINES: usize = 5000;

/// The number of lines that a shortened log file keeps.
pub const TRIM_TO: usize = 3000;

/// The size in bytes above which a log file is examined for shortening.
pub const SIZE_THRESHOLD: u64 = 500_000;

/// The name of the log file for everything.
pub open spec fn app_log() -> Seq<char> {
    "app.log"@
}

/// The name of the log file for errors.
pub open spec fn error_log() -> Seq<char> {
    "error.log"@
}

/// One line to append to a log file.
#[derive(Debug, Clone, PartialEq, Eq)]
pub struct LogWrite {
    /// The name of the file in the log directory.
    pub file: String,
    /// The text to append, with its line feed.
    pub text: String,
}

/// A log line: the time between brackets, a space, the message, a line feed.
pub open spec fn log_line(time: Seq<char>, message: Seq<char>) -> Seq<char> {
    "["@ + time + "] "@ + message + "\n"@
}

/// The message of an error as it stands in the log for everything.
pub open spec fn error_message(message: Seq<char>) -> Seq<char> {
    "ERROR: "@ + message
}

/// Writes a log line.
pub fn make_log_line(time: &str, message: &str) -> (line: String)
    ensures
        line@ == log_line(time@, message@),
{
    let mut line = String::from_str("[");
    line.append(time);
    line.append("] ");
    line.append(message);
    line.append("\n");
    line
}

/// The line that records a message at the given time.
pub fn log_info_at(time: &str, msg: &str) -> (w: LogWrite)
    ensures
        w.file@ == app_log(),
        w.text@ == log_line(time@, msg@),
{
    LogWrite { file: String::from_str("app.log"), text: make_log_line(time, msg) }
}

/// The lines that record an error: one in the log for everything, written
/// at `time`, and one in the log for errors, written at `later`.
pub fn log_error_at(time: &str, later: &str, msg: &str) -> (w: (LogWrite, LogWrite))
    ensures
        w.0.file@ == app_log(),
        w.0.text@ == log_line(time@, error_message(msg@)),
        w.1.file@ == error_log(),
        w.1.text@ == log_line(later@, msg@),
{
    let marked = String::from_str("ERROR: ").concat(msg);
    (
        LogWrite { file: String::from_str("app.log"), text: make_log_line(time, marked.as_str()) },
        LogWrite { file: String::from_str("error.log"), text: make_log_line(later, msg) },
    )
}

/// The line that records a message now.
pub fn log_info(msg: &str) -> (w: LogWrite)
    ensures
        w.file@ == app_log(),
        exists|time: Seq<char>| w.text@ == log_line(time, msg@),
{
    let time = now_rfc3339_millis();
    let w = log_info_at(time.as_str(), msg);
    assert(w.text@ == log_line(time@, msg@));
    w
}

/// The lines that record an error now.
pub fn log_error(msg: &str) -> (w: (LogWrite, LogWrite))
    ensures
        w.0.file@ == app_log(),
        exists|time: Seq<char>| w.0.text@ == log_line(time, error_message(msg@)),
        w.1.file@ == error_log(),
        exists|time: Seq<char>| w.1.text@ == log_line(time, msg@),
{
    let time = now_rfc3339_millis();
    let later = now_rfc3339_millis();
    let w = log_error_at(time.as_str(), later.as_str(), msg);
    assert(w.0.text@ == log_line(time@, error_message(msg@)));
    assert(w.1.text@ == log_line(later@, msg@));
    w
}

/// Whether a log file of this size is examined for shortening.
pub fn needs_trim_check(size: u64) -> (b: bool)
    ensures
        b == (size > SIZE_THRESHOLD),
{
    size > SIZE_THRESHOLD
}

/// What a log file is shortened to: its last [`TRIM_TO`] lines, each with a
/// line feed, if it has [`MAX_LINES`] lines or more.
pub open spec fn shortened(content: Seq<char>) -> Option<Seq<char>> {
    let lines = lines_of(content);
    if lines.len() >= MAX_LINES {
        Some(joined(lines.skip(lines.len() - TRIM_TO)) + seq!['\n'])
    } else {
        None
    }
}

/// Shortens the content of a log file, if it is long enough.
pub fn trimmed_log(content: &str) -> (r: Option<String>)
    ensures
        crate::session::opt_str_view(r) == shortened(content@),
{
    let text = chars_of(content);
    let lines = split_lines(&text);
    assert(lines_view(lines@).len() == lines@.len());
    if lines.len() >= MAX_LINES {
        let mut out = join_lines(&lines, lines.len() - TRIM_TO);
        out.push('\n');
        Some(string_from_chars(&out))
    } else {
        None
    }
}

/// Whether a text holds two full stops in a row.
pub open spec fn has_dot_dot(s: Seq<char>) -> bool {
    exists|i: int| 0 <= i && i + 1 < s.len() && #[trigger] s[i] == '.' && s[i + 1] == '.'
}

/// Whether a name could lead out of the log directory: it holds a slash, a
/// backslash, or two full stops in a row.
pub open spec fn escapes_directory(name: Seq<char>) -> bool {
    name.contains('/') || name.contains('\\') || has_dot_dot(name)
}

/// The error of a name that could lead out of the log directory.
pub open spec fn invalid_filename() -> Seq<char> {
    "Invalid filename"@
}

/// Tests a text for two full stops in a row.
fn contains_dot_dot(text: &Vec<char>) -> (r: bool)
    ensures
        r == has_dot_dot(text@),
{
    if text.len() < 2 {
        return false;
    }
    let mut i: usize = 0;
    while i + 1 < text.len()
        invariant
            i + 1 <= text.len(),
            forall|k: int| 0 <= k < i ==> !(#[trigger] text@[k] == '.' && text@[k + 1] == '.'),
        decreases text.len() - i,
    {
        if text[i] == '.' && text[i + 1] == '.' {
            return true;
        }
        i = i + 1;
    }
    false
}

/// Checks the name of a log file.
pub fn check_log_name(filename: &str) -> (r: Result<(), String>)
    ensures
        match r {
            Ok(_) => !escapes_directory(filename@),
            Err(e) => escapes_directory(filename@) && e@ == invalid_filename(),
        },
{
    let text = chars_of(filename);
    if contains_char(&text, '/') || contains_char(&text, '\\') || contains_dot_dot(&text) {
        Err(String::from_str("Invalid filename"))
    } else {
        Ok(())
    }
}

/// The last `count` lines of a text, with a line feed between each two;
/// all of them where the text has fewer.
pub open spec fn tail_of(content: Seq<char>, count: nat) -> Seq<char> {
    let lines = lines_of(content);
    if lines.len() <= count {
        joined(lines)
    } else {
        joined(lines.skip(lines.len() - count))
    }
}

/// The last `lines` lines of the content of a log file.
pub fn log_tail(content: &str, lines: usize) -> (r: String)
    ensures
        r@ == tail_of(content@, lines as nat),
{
    let text = chars_of(content);
    let all = split_lines(&text);
    assert(lines_view(all@).len() == all@.len());
    let start = if all.len() <= lines {
        0
    } else {
        all.len() - lines
    };
    assert(lines_view(all@).skip(0) =~= lines_view(all@));
    let out = join_lines(&all, start);
    string_from_chars(&out)
}

/// The tail of a log file, given its name and its content where the file
/// exists: a bad name is an error, a missing file has an empty tail.
pub fn read_log_tail(filename: &str, content: Option<&str>, lines: usize) -> (r: Result<
    String,
    String,
>)
    ensures
        match r {
            Ok(tail) => !escapes_directory(filename@) && tail@ == match content {
                Some(c) => tail_of(c@, lines as nat),
                None => Seq::empty(),
            },
            Err(e) => escapes_directory(filename@) && e@ == invalid_filename(),
        },
{
    match check_log_name(filename) {
        Err(e) => Err(e),
        Ok(_) => match content {
            Some(c) => Ok(log_tail(c, lines)),
            None => Ok(String::new()),
        },
    }
}

} // verus!
