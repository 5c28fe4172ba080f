//! The check-up of the configuration file and its automatic repairs.

use crate::config_io::empty_object;
use crate::frame::json_str;
use crate::json::{
    json5_parse, json_pretty_text, lemma_object_view, members_view, parse_json5, parsed_view,
    print_json_pretty, Json, JsonNumber, JsonView, NumberView,
};
use crate::text::{str_eq, texts};
use vstd::prelude::*;
use vstd::string::*;

verus! {

/// One finding of the check-up.
#[derive(Debug, Clone, PartialEq, Eq)]
pub struct DoctorIssue {
    pub id: String,
    pub code: String,
    pub severity: String,
    pub message: String,
    pub auto_fixable: bool,
    pub fix_hint: Option<String>,
}

/// The findings of the check-up and the score they leave.
#[derive(Debug, Clone, PartialEq, Eq)]
pub struct DoctorReport {
    pub ok: bool,
    pub score: u8,
    pub issues: Vec<DoctorIssue>,
}

/// Mathematical model of a [`DoctorIssue`].
pub struct DoctorIssueView {
    pub id: Seq<char>,
    pub code: Seq<char>,
    pub severity: Seq<char>,
    pub message: Seq<char>,
    pub auto_fixable: bool,
    pub fix_hint: Option<Seq<char>>,
}

impl View for DoctorIssue {
    type V = DoctorIssueView;

    open spec fn view(&self) -> DoctorIssueView {
        DoctorIssueView {
            id: self.id@,
            code: self.code@,
            severity: self.severity@,
            message: self.message@,
            auto_fixable: self.auto_fixable,
            fix_hint: crate::session::opt_str_view(self.fix_hint),
        }
    }
}

/// The views of a list of findings.
pub open spec fn issues_view(list: Seq<DoctorIssue>) -> Seq<DoctorIssueView> {
    list.map_values(|i: DoctorIssue| i@)
}

/// The score of a configuration without findings.
pub const FULL_SCORE: u8 = 100;

/// The least score that still counts as healthy.
pub const HEALTHY_SCORE: u8 = 80;

/// The largest port number.
pub const MAX_PORT: u64 = 65535;

/// The finding of a configuration that is no JSON5.
pub open spec fn syntax_issue() -> DoctorIssueView {
    DoctorIssueView {
        id: "json.syntax"@,
        code: "json.syntax"@,
        severity: "error"@,
        message: "Invalid JSON5 syntax"@,
        auto_fixable: true,
        fix_hint: Some("Try removing trailing commas and unmatched quotes"@),
    }
}

/// The finding of a configuration without agents.
pub open spec fn agents_issue() -> DoctorIssueView {
    DoctorIssueView {
        id: "field.agents"@,
        code: "required.field"@,
        severity: "warn"@,
        message: "Missing agents field; recommend initializing defaults"@,
        auto_fixable: true,
        fix_hint: Some("Add agents.defaults with safe minimal values"@),
    }
}

/// The finding of a gateway port that is no port number.
pub open spec fn port_issue() -> DoctorIssueView {
    DoctorIssueView {
        id: "field.port"@,
        code: "invalid.port"@,
        severity: "error"@,
        message: "Gateway port is invalid"@,
        auto_fixable: false,
        fix_hint: None,
    }
}

/// The finding of a configuration file that cannot be written.
pub open spec fn permission_issue() -> DoctorIssueView {
    DoctorIssueView {
        id: "permission.config"@,
        code: "fs.permission"@,
        severity: "error"@,
        message: "Config file is readonly or inaccessible"@,
        auto_fixable: false,
        fix_hint: Some("Grant write permission then retry"@),
    }
}

/// Whether a configuration lacks the member `agents`.
pub open spec fn lacks_agents(config: Option<JsonView>) -> bool {
    config matches Some(c) && c.get("agents"@) is None
}

/// The gateway port of a configuration, where it is a non-negative integer.
pub open spec fn gateway_port(config: JsonView) -> Option<u64> {
    match config.get("gateway"@) {
        Some(gateway) => match gateway.get("port"@) {
            Some(port) => port.as_u64(),
            None => None,
        },
        None => None,
    }
}

/// Whether a configuration names a gateway port beyond [`MAX_PORT`].
pub open spec fn bad_port(config: Option<JsonView>) -> bool {
    config matches Some(c) && gateway_port(c) matches Some(p) && p > MAX_PORT
}

/// `list` with `item` at its end if `cond` holds.
pub open spec fn push_if<A>(list: Seq<A>, cond: bool, item: A) -> Seq<A> {
    if cond {
        list.push(item)
    } else {
        list
    }
}

/// The findings of a check-up, in the order they are looked for.
pub open spec fn findings(syntax_ok: bool, config: Option<JsonView>, perms_ok: bool) -> Seq<
    DoctorIssueView,
> {
    push_if(
        push_if(
            push_if(
                push_if(Seq::empty(), !syntax_ok, syntax_issue()),
                lacks_agents(config),
                agents_issue(),
            ),
            bad_port(config),
            port_issue(),
        ),
        !perms_ok,
        permission_issue(),
    )
}

/// The score that the findings leave: 40 less for broken syntax, 10 less
/// for missing agents, 20 less for a bad port, 20 less for a file that
/// cannot be written.
pub open spec fn score_of(syntax_ok: bool, config: Option<JsonView>, perms_ok: bool) -> int {
    FULL_SCORE - (if syntax_ok {
        0int
    } else {
        40
    }) - (if lacks_agents(config) {
        10int
    } else {
        0
    }) - (if bad_port(config) {
        20int
    } else {
        0
    }) - (if perms_ok {
        0int
    } else {
        20
    })
}

/// The view of an optional reference to a value.
pub open spec fn opt_ref_view(config: Option<&Json>) -> Option<JsonView> {
    match config {
        Some(c) => Some(c@),
        None => None,
    }
}

fn make_issue(
    id: &str,
    code: &str,
    severity: &str,
    message: &str,
    auto_fixable: bool,
    fix_hint: Option<&str>,
) -> (issue: DoctorIssue)
    ensures
        issue@ == (DoctorIssueView {
            id: id@,
            code: code@,
            severity: severity@,
            message: message@,
            auto_fixable,
            fix_hint: match fix_hint {
                Some(h) => Some(h@),
                None => None,
            },
        }),
{
    DoctorIssue {
        id: String::from_str(id),
        code: String::from_str(code),
        severity: String::from_str(severity),
        message: String::from_str(message),
        auto_fixable,
        fix_hint: match fix_hint {
            Some(h) => Some(String::from_str(h)),
            None => None,
        },
    }
}

/// Reads the gateway port of a configuration.
pub fn gateway_port_of(config: &Json) -> (port: Option<u64>)
    ensures
        port == gateway_port(config@),
{
    match config.get("gateway") {
        Some(gateway) => match gateway.get("port") {
            Some(port) => port.as_u64(),
            None => None,
        },
        None => None,
    }
}

/// Examines a configuration, given whether its text is JSON5, the
/// configuration as it was read (if it could be), and whether the file can
/// be written. The report holds the findings in order, the score they
/// leave, and whether that score is healthy.
pub fn diagnose(syntax_ok: bool, config: Option<&Json>, perms_ok: bool) -> (report: DoctorReport)
    ensures
        issues_view(report.issues@) == findings(syntax_ok, opt_ref_view(config), perms_ok),
        report.score == score_of(syntax_ok, opt_ref_view(config), perms_ok),
        report.ok == (report.score >= HEALTHY_SCORE),
{
    let mut issues: Vec<DoctorIssue> = Vec::new();
    let mut score: u8 = FULL_SCORE;
    let ghost mut found: Seq<DoctorIssueView> = Seq::empty();
    assert(issues_view(issues@) =~= found);
    if !syntax_ok {
        issues.push(
            make_issue(
                "json.syntax",
                "json.syntax",
                "error",
                "Invalid JSON5 syntax",
                true,
                Some("Try removing trailing commas and unmatched quotes"),
            ),
        );
        score = score - 40;
        proof {
            found = found.push(syntax_issue());
        }
        assert(issues_view(issues@) =~= found);
    }
    if let Some(cfg) = config {
        if cfg.get("agents").is_none() {
            issues.push(
                make_issue(
                    "field.agents",
                    "required.field",
                    "warn",
                    "Missing agents field; recommend initializing defaults",
                    true,
                    Some("Add agents.defaults with safe minimal values"),
                ),
            );
            score = score - 10;
            proof {
                found = found.push(agents_issue());
            }
            assert(issues_view(issues@) =~= found);
        }
        if let Some(port) = gateway_port_of(cfg) {
            if port > MAX_PORT {
                issues.push(
                    make_issue(
                        "field.port",
                        "invalid.port",
                        "error",
                        "Gateway port is invalid",
                        false,
                        None,
                    ),
                );
                score = score - 20;
                proof {
                    found = found.push(port_issue());
                }
                assert(issues_view(issues@) =~= found);
            }
        }
    }
    if !perms_ok {
        issues.push(
            make_issue(
                "permission.config",
                "fs.permission",
                "error",
                "Config file is readonly or inaccessible",
                false,
                Some("Grant write permission then retry"),
            ),
        );
        score = score - 20;
        proof {
            found = found.push(permission_issue());
        }
        assert(issues_view(issues@) =~= found);
    }
    DoctorReport { ok: score >= HEALTHY_SCORE, score, issues }
}

/// Examines the configuration file: its text, the configuration as it was
/// read (if it could be), and whether the file can be written.
pub fn run_doctor(text: &str, config: Option<&Json>, perms_ok: bool) -> (report: DoctorReport)
    ensures
        issues_view(report.issues@) == findings(
            json5_parse(text@) is Ok,
            opt_ref_view(config),
            perms_ok,
        ),
        report.score == score_of(json5_parse(text@) is Ok, opt_ref_view(config), perms_ok),
        report.ok == (report.score >= HEALTHY_SCORE),
{
    let syntax_ok = parse_json5(text).is_ok();
    diagnose(syntax_ok, config, perms_ok)
}

/// No two findings of a check-up have the same identifier.
pub proof fn lemma_findings_distinct(
    syntax_ok: bool,
    config: Option<JsonView>,
    perms_ok: bool,
    i: int,
    j: int,
)
    requires
        0 <= i < j < findings(syntax_ok, config, perms_ok).len(),
    ensures
        findings(syntax_ok, config, perms_ok)[i].id != findings(syntax_ok, config, perms_ok)[j].id,
{
    reveal_strlit("json.syntax");
    reveal_strlit("field.agents");
    reveal_strlit("field.port");
    reveal_strlit("permission.config");
    let a = "json.syntax"@;
    let b = "field.agents"@;
    let c = "field.port"@;
    let d = "permission.config"@;
    assert(a.len() == 11 && b.len() == 12 && c.len() == 10 && d.len() == 17);
}

/// What `Regex::new(pattern)` followed by `replace_all(text, replacement)`
/// gives: the text with every match replaced, or the text of the error that
/// the pattern is refused with.
pub uninterp spec fn regex_replaced(
    pattern: Seq<char>,
    text: Seq<char>,
    replacement: Seq<char>,
) -> Result<Seq<char>, Seq<char>>;

/// Compiles a pattern with `Regex::new` of `regex` and replaces every match
/// in `text` with `Regex::replace_all`; a pattern that does not compile
/// gives its error as text. The result is `regex_replaced` of the three.
#[verifier::external_body]
pub(crate) fn regex_replace_all(pattern: &str, text: &str, replacement: &str) -> (r: Result<
    String,
    String,
>)
    ensures
        crate::cli_runner::text_result_view(r) == regex_replaced(pattern@, text@, replacement@),
{
    regex::Regex::new(pattern).map(|re| re.replace_all(text, replacement).into_owned()).map_err(
        |e| e.to_string(),
    )
}

/// The pattern of a comma that stands before a closing brace or bracket.
pub open spec fn trailing_comma_pattern() -> Seq<char> {
    ",(\\s*[}\\]])"@
}

/// A text without the commas that stand before a closing brace or bracket.
pub open spec fn without_trailing_commas(text: Seq<char>) -> Result<Seq<char>, Seq<char>> {
    regex_replaced(trailing_comma_pattern(), text, "$1"@)
}

/// Removes from a text the commas that stand before a closing brace or
/// bracket.
pub fn clean_json(text: &str) -> (r: Result<String, String>)
    ensures
        crate::cli_runner::text_result_view(r) == without_trailing_commas(text@),
{
    regex_replace_all(",(\\s*[}\\]])", text, "$1")
}

/// Whether a list of strings holds `s`.
pub fn list_has(list: &Vec<String>, s: &str) -> (r: bool)
    ensures
        r == texts(list@).contains(s@),
{
    let mut i: usize = 0;
    while i < list.len()
        invariant
            i <= list.len(),
            forall|k: int| 0 <= k < i ==> texts(list@)[k] != s@,
        decreases list.len() - i,
    {
        if str_eq(list[i].as_str(), s) {
            assert(texts(list@)[i as int] == s@);
            return true;
        }
        i = i + 1;
    }
    false
}

/// A value with one more member, if it is an object; any other value as it
/// is. The new member is the one its key names from then on.
pub open spec fn set_member(value: JsonView, key: Seq<char>, member: JsonView) -> JsonView {
    match value {
        JsonView::Object(members) => JsonView::Object(members.push((key, member))),
        other => other,
    }
}

/// Adds a member to a value that is an object.
pub fn with_member(value: Json, key: &str, member: Json) -> (r: Json)
    ensures
        r@ == set_member(value@, key@, member@),
{
    match value {
        Json::Object(mut members) => {
            proof {
                lemma_object_view(members);
            }
            let ghost before = members_view(members@);
            members.push((String::from_str(key), member));
            proof {
                lemma_object_view(members);
                assert(members_view(members@) =~= before.push((key@, member@)));
            }
            Json::Object(members)
        },
        other => other,
    }
}

/// The agents that a configuration gets where it has none.
pub open spec fn default_agents() -> JsonView {
    JsonView::Object(
        seq![("defaults"@, JsonView::Object(seq![("model"@, JsonView::Str("gpt-4o"@))]))],
    )
}

/// The configuration that takes the place of one that is `null`.
pub open spec fn safe_config_text() -> Seq<char> {
    "{\"agents\":{\"defaults\":{\"model\":\"gpt-4o\"}}}"@
}

/// The port that a repaired gateway listens on.
pub const DEFAULT_PORT: u64 = 8080;

/// The members of the gateway of a configuration; none where it has no
/// gateway that is an object.
pub open spec fn gateway_members(config: JsonView) -> Seq<(Seq<char>, JsonView)> {
    match config.get("gateway"@) {
        Some(JsonView::Object(members)) => members,
        _ => Seq::empty(),
    }
}

/// The gateway of a configuration with its port set to [`DEFAULT_PORT`].
pub open spec fn repaired_gateway(config: JsonView) -> JsonView {
    JsonView::Object(
        gateway_members(config).push(("port"@, JsonView::Number(NumberView::PosInt(DEFAULT_PORT)))),
    )
}

/// The configuration after the repair of missing agents, if it is asked for
/// and the agents are missing.
pub open spec fn agents_repaired(config: JsonView, ids: Seq<Seq<char>>) -> JsonView {
    if ids.contains("field.agents"@) && config.get("agents"@) is None {
        set_member(config, "agents"@, default_agents())
    } else {
        config
    }
}

/// The configuration after the repair of its syntax, if it is asked for,
/// the configuration is `null`, and the safe configuration was read.
pub open spec fn syntax_repaired(
    config: JsonView,
    ids: Seq<Seq<char>>,
    safe: Result<JsonView, Seq<char>>,
) -> JsonView {
    if ids.contains("json.syntax"@) && config == JsonView::Null && safe is Ok {
        safe->Ok_0
    } else {
        config
    }
}

/// The configuration after the repair of the port, if it is asked for.
pub open spec fn port_repaired(config: JsonView, ids: Seq<Seq<char>>) -> JsonView {
    if ids.contains("field.port"@) {
        set_member(config, "gateway"@, repaired_gateway(config))
    } else {
        config
    }
}

/// The configuration after every repair that is asked for, in order:
/// agents, syntax, port.
pub open spec fn repaired(
    config: JsonView,
    ids: Seq<Seq<char>>,
    safe: Result<JsonView, Seq<char>>,
) -> JsonView {
    port_repaired(syntax_repaired(agents_repaired(config, ids), ids, safe), ids)
}

/// The repairs that were made, in order.
pub open spec fn repairs_made(
    config: JsonView,
    ids: Seq<Seq<char>>,
    safe: Result<JsonView, Seq<char>>,
) -> Seq<Seq<char>> {
    let first = agents_repaired(config, ids);
    push_if(
        push_if(
            push_if(
                Seq::empty(),
                ids.contains("field.agents"@) && config.get("agents"@) is None,
                "field.agents"@,
            ),
            ids.contains("json.syntax"@) && first == JsonView::Null && safe is Ok,
            "json.syntax"@,
        ),
        ids.contains("field.port"@),
        "field.port"@,
    )
}

/// Builds the agents that a configuration gets where it has none.
fn make_default_agents() -> (j: Json)
    ensures
        j@ == default_agents(),
{
    let mut defaults: Vec<(String, Json)> = Vec::new();
    defaults.push((String::from_str("model"), json_str("gpt-4o")));
    proof {
        lemma_object_view(defaults);
        assert(members_view(defaults@) =~= seq![("model"@, JsonView::Str("gpt-4o"@))]);
    }
    let mut agents: Vec<(String, Json)> = Vec::new();
    agents.push((String::from_str("defaults"), Json::Object(defaults)));
    proof {
        lemma_object_view(agents);
        assert(members_view(agents@) =~= default_agents()->Object_0);
    }
    Json::Object(agents)
}

/// Builds the gateway of a configuration with its port set.
fn make_repaired_gateway(config: &Json) -> (j: Json)
    ensures
        j@ == repaired_gateway(config@),
{
    let mut members: Vec<(String, Json)> = match config.get("gateway") {
        Some(gateway) => match gateway.deep_clone() {
            Json::Object(members) => {
                proof {
                    lemma_object_view(members);
                }
                members
            },
            _ => Vec::new(),
        },
        None => Vec::new(),
    };
    assert(members_view(members@) =~= gateway_members(config@));
    let ghost before = members_view(members@);
    members.push((String::from_str("port"), Json::Number(JsonNumber::PosInt(DEFAULT_PORT))));
    proof {
        lemma_object_view(members);
        assert(members_view(members@) =~= before.push(
            ("port"@, JsonView::Number(NumberView::PosInt(DEFAULT_PORT))),
        ));
    }
    Json::Object(members)
}

/// Repairs a configuration as far as `issue_ids` asks for, given what the
/// safe configuration was read as. Gives the repaired configuration and the
/// repairs made, in order.
pub fn repair(config: Json, issue_ids: &Vec<String>, safe: Result<Json, String>) -> (r: (
    Json,
    Vec<String>,
))
    ensures
        r.0@ == repaired(config@, texts(issue_ids@), parsed_view(safe)),
        texts(r.1@) == repairs_made(config@, texts(issue_ids@), parsed_view(safe)),
{
    let ghost ids = texts(issue_ids@);
    let mut current = config;
    let mut fixed: Vec<String> = Vec::new();
    assert(texts(fixed@) =~= Seq::<Seq<char>>::empty());
    if list_has(issue_ids, "field.agents") && current.get("agents").is_none() {
        current = with_member(current, "agents", make_default_agents());
        let ghost before = texts(fixed@);
        fixed.push(String::from_str("field.agents"));
        assert(texts(fixed@) =~= before.push("field.agents"@));
    }
    if list_has(issue_ids, "json.syntax") && current.is_null() {
        match safe {
            Ok(value) => {
                current = value;
                let ghost before = texts(fixed@);
                fixed.push(String::from_str("json.syntax"));
                assert(texts(fixed@) =~= before.push("json.syntax"@));
            },
            Err(_) => {},
        }
    }
    if list_has(issue_ids, "field.port") {
        let gateway = make_repaired_gateway(&current);
        current = with_member(current, "gateway", gateway);
        let ghost before = texts(fixed@);
        fixed.push(String::from_str("field.port"));
        assert(texts(fixed@) =~= before.push("field.port"@));
    }
    (current, fixed)
}

/// What the automatic repairs came to.
#[derive(Debug, Clone, PartialEq, Eq)]
pub struct FixOutcome {
    /// The repairs made, in order.
    pub fixed: Vec<String>,
    /// The text to write to the configuration file, if anything is to be
    /// written.
    pub write: Option<String>,
}

/// The configuration that a text stands for when it is repaired: what it
/// parses to, or an empty object.
pub open spec fn config_to_repair(text: Seq<char>) -> JsonView {
    match json5_parse(text) {
        Ok(v) => v,
        Err(_) => JsonView::Object(Seq::empty()),
    }
}

/// The text to write after repairs: the indented text of the repaired
/// configuration without trailing commas, if any repair was made and the
/// text could be cleaned.
pub open spec fn text_to_write(
    made: Seq<Seq<char>>,
    pretty: Seq<char>,
) -> Option<Seq<char>> {
    if made.len() == 0 {
        None
    } else {
        match without_trailing_commas(pretty) {
            Ok(t) => Some(t),
            Err(_) => None,
        }
    }
}

/// The indented text of the repaired configuration, or the default
/// configuration where the printer reported an error.
pub open spec fn pretty_or_default(pretty: Option<Seq<char>>) -> Seq<char> {
    match pretty {
        Some(t) => t,
        None => crate::config_io::DEFAULT_CONFIG@,
    }
}

/// Chooses the text to write after repairs, given the indented text of the
/// repaired configuration.
pub fn choose_write(fixed: &Vec<String>, pretty: Option<String>) -> (write: Option<String>)
    ensures
        crate::session::opt_str_view(write) == text_to_write(
            texts(fixed@),
            pretty_or_default(crate::session::opt_str_view(pretty)),
        ),
{
    let text = crate::config_io::text_or_default(pretty);
    assert(texts(fixed@).len() == fixed@.len());
    if fixed.len() == 0 {
        return None;
    }
    match clean_json(text.as_str()) {
        Ok(t) => Some(t),
        Err(_) => None,
    }
}

/// Repairs the text of a configuration as far as `issue_ids` asks for.
pub fn apply_auto_fixes(text: &str, issue_ids: &Vec<String>) -> (out: FixOutcome)
    ensures
        texts(out.fixed@) == repairs_made(
            config_to_repair(text@),
            texts(issue_ids@),
            json5_parse(safe_config_text()),
        ),
        out.fixed@.len() == 0 ==> out.write is None,
        crate::session::opt_str_view(out.write) == text_to_write(
            texts(out.fixed@),
            pretty_or_default(
                json_pretty_text(
                    repaired(
                        config_to_repair(text@),
                        texts(issue_ids@),
                        json5_parse(safe_config_text()),
                    ),
                ),
            ),
        ),
{
    let current = match parse_json5(text) {
        Ok(v) => v,
        Err(_) => empty_object(),
    };
    let safe = parse_json5("{\"agents\":{\"defaults\":{\"model\":\"gpt-4o\"}}}");
    let (repaired, fixed) = repair(current, issue_ids, safe);
    let pretty = print_json_pretty(&repaired);
    let write = choose_write(&fixed, pretty);
    assert(texts(fixed@).len() == fixed@.len());
    FixOutcome { fixed, write }
}

} // verus!
