//! The text of the configuration file, read and written as JSON.
//!
//! Reading is lenient (JSON5, by `json5`), writing is strict and indented
//! (by `serde_json`).

use crate::json::{
    json5_parse, json_pretty_text, lemma_object_view, members_view, parse_json5, parsed_view,
    print_json_pretty, Json, JsonView,
};
use vstd::prelude::*;
use vstd::string::*;

verus! {

/// The configuration that stands for a file that does not exist.
pub const DEFAULT_CONFIG: &'static str = "{}";

/// Milliseconds to wait before a configuration that did not parse is read
/// once more: another process may be in the middle of writing it.
pub const CONFIG_RETRY_MILLIS: u64 = 50;

/// The text of a file, or the default configuration where there is no file.
pub fn text_or_default(text: Option<String>) -> (r: String)
    ensures
        r@ == match text {
            Some(t) => t@,
            None => DEFAULT_CONFIG@,
        },
{
    match text {
        Some(t) => t,
        None => String::from_str(DEFAULT_CONFIG),
    }
}

/// Reads a text as JSON5.
pub fn read_json(text: &str) -> (r: Result<Json, String>)
    ensures
        parsed_view(r) == json5_parse(text@),
{
    parse_json5(text)
}

/// An empty object.
pub fn empty_object() -> (j: Json)
    ensures
        j@ == JsonView::Object(Seq::empty()),
{
    let members: Vec<(String, Json)> = Vec::new();
    proof {
        lemma_object_view(members);
        assert(members_view(members@) =~= Seq::empty());
    }
    Json::Object(members)
}

/// What to do after an attempt to read the configuration.
#[derive(Debug, Clone, PartialEq, Eq)]
pub enum ConfigRead {
    /// The configuration is this value.
    Done(Json),
    /// Wait this many milliseconds and read the file again.
    RetryAfter { millis: u64 },
}

/// What follows the attempt number `attempt` (counted from 0) with the
/// given result: a value that parsed is the configuration; a first failure
/// asks for one more attempt after [`CONFIG_RETRY_MILLIS`]; any later
/// failure yields an empty object.
pub open spec fn config_read(attempt: u32, parsed: Result<JsonView, Seq<char>>) -> Option<JsonView> {
    match parsed {
        Ok(v) => Some(v),
        Err(_) => if attempt == 0 {
            None
        } else {
            Some(JsonView::Object(Seq::empty()))
        },
    }
}

/// Decides what follows an attempt to read the configuration.
pub fn read_config_step(attempt: u32, parsed: Result<Json, String>) -> (step: ConfigRead)
    ensures
        match step {
            ConfigRead::Done(v) => config_read(attempt, parsed_view(parsed)) == Some(v@),
            ConfigRead::RetryAfter { millis } => config_read(attempt, parsed_view(parsed)) is None
                && millis == CONFIG_RETRY_MILLIS,
        },
{
    match parsed {
        Ok(v) => ConfigRead::Done(v),
        Err(_) => if attempt == 0 {
            ConfigRead::RetryAfter { millis: CONFIG_RETRY_MILLIS }
        } else {
            ConfigRead::Done(empty_object())
        },
    }
}

/// Reads the text of the configuration file as JSON5 and decides what
/// follows.
pub fn read_openclaw_config(attempt: u32, text: &str) -> (step: ConfigRead)
    ensures
        match step {
            ConfigRead::Done(v) => config_read(attempt, json5_parse(text@)) == Some(v@),
            ConfigRead::RetryAfter { millis } => config_read(attempt, json5_parse(text@)) is None
                && millis == CONFIG_RETRY_MILLIS,
        },
{
    read_config_step(attempt, read_json(text))
}

/// Writes a value as indented JSON text; `None` where the printer reports
/// an error.
pub fn write_json(value: &Json) -> (text: Option<String>)
    ensures
        crate::session::opt_str_view(text) == json_pretty_text(value@),
{
    print_json_pretty(value)
}

} // verus!
