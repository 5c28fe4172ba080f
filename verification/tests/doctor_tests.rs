use clawpal::config_io::{
    empty_object, read_config_step, read_json, read_openclaw_config, text_or_default, write_json,
    ConfigRead, CONFIG_RETRY_MILLIS, DEFAULT_CONFIG,
};
use clawpal::doctor::{
    apply_auto_fixes, clean_json, diagnose, gateway_port_of, list_has, repair, run_doctor,
    with_member, DoctorIssue,
};
use clawpal::json::{Json, JsonNumber};

fn s(text: &str) -> Json {
    Json::Str(text.to_string())
}

fn n(v: u64) -> Json {
    Json::Number(JsonNumber::PosInt(v))
}

fn obj(members: Vec<(&str, Json)>) -> Json {
    Json::Object(members.into_iter().map(|(k, v)| (k.to_string(), v)).collect())
}

fn ids(list: &[&str]) -> Vec<String> {
    list.iter().map(|w| w.to_string()).collect()
}

fn syntax_issue() -> DoctorIssue {
    DoctorIssue {
        id: "json.syntax".into(),
        code: "json.syntax".into(),
        severity: "error".into(),
        message: "Invalid JSON5 syntax".into(),
        auto_fixable: true,
        fix_hint: Some("Try removing trailing commas and unmatched quotes".into()),
    }
}

fn agents_issue() -> DoctorIssue {
    DoctorIssue {
        id: "field.agents".into(),
        code: "required.field".into(),
        severity: "warn".into(),
        message: "Missing agents field; recommend initializing defaults".into(),
        auto_fixable: true,
        fix_hint: Some("Add agents.defaults with safe minimal values".into()),
    }
}

fn port_issue() -> DoctorIssue {
    DoctorIssue {
        id: "field.port".into(),
        code: "invalid.port".into(),
        severity: "error".into(),
        message: "Gateway port is invalid".into(),
        auto_fixable: false,
        fix_hint: None,
    }
}

fn permission_issue() -> DoctorIssue {
    DoctorIssue {
        id: "permission.config".into(),
        code: "fs.permission".into(),
        severity: "error".into(),
        message: "Config file is readonly or inaccessible".into(),
        auto_fixable: false,
        fix_hint: Some("Grant write permission then retry".into()),
    }
}

#[test]
fn healthy_configuration_scores_full() {
    let cfg = obj(vec![("agents", obj(vec![])), ("gateway", obj(vec![("port", n(8080))]))]);
    let report = diagnose(true, Some(&cfg), true);
    assert!(report.ok);
    assert_eq!(report.score, 100);
    assert!(report.issues.is_empty());
}

#[test]
fn every_finding_in_order() {
    let cfg = obj(vec![("gateway", obj(vec![("port", n(70000))]))]);
    let report = diagnose(false, Some(&cfg), false);
    assert!(!report.ok);
    assert_eq!(report.score, 10);
    assert_eq!(report.issues, vec![syntax_issue(), agents_issue(), port_issue(), permission_issue()]);
}

#[test]
fn single_findings_and_threshold() {
    let good = obj(vec![("agents", obj(vec![]))]);
    let r = diagnose(true, Some(&good), false);
    assert_eq!((r.score, r.ok), (80, true));
    assert_eq!(r.issues, vec![permission_issue()]);
    let r = diagnose(false, Some(&good), true);
    assert_eq!((r.score, r.ok), (60, false));
    assert_eq!(r.issues, vec![syntax_issue()]);
    let r = diagnose(true, Some(&obj(vec![])), true);
    assert_eq!((r.score, r.ok), (90, true));
    assert_eq!(r.issues, vec![agents_issue()]);
    let r = diagnose(true, Some(&obj(vec![])), false);
    assert_eq!((r.score, r.ok), (70, false));
    let r = diagnose(true, None, true);
    assert_eq!((r.score, r.ok), (100, true));
}

#[test]
fn port_limits() {
    let at = obj(vec![("agents", obj(vec![])), ("gateway", obj(vec![("port", n(65535))]))]);
    assert!(diagnose(true, Some(&at), true).issues.is_empty());
    let over = obj(vec![("agents", obj(vec![])), ("gateway", obj(vec![("port", n(65536))]))]);
    assert_eq!(diagnose(true, Some(&over), true).issues, vec![port_issue()]);
    assert_eq!(diagnose(true, Some(&over), true).score, 80);
    let text = obj(vec![("agents", obj(vec![])), ("gateway", obj(vec![("port", s("99999"))]))]);
    assert!(diagnose(true, Some(&text), true).issues.is_empty());
    assert_eq!(gateway_port_of(&over), Some(65536));
    assert_eq!(gateway_port_of(&text), None);
    assert_eq!(gateway_port_of(&Json::Null), None);
}

#[test]
fn run_doctor_checks_syntax_of_text() {
    let cfg = obj(vec![("agents", obj(vec![]))]);
    assert!(run_doctor("{agents: {},}", Some(&cfg), true).issues.is_empty());
    let r = run_doctor("{agents: ", Some(&cfg), true);
    assert_eq!(r.issues, vec![syntax_issue()]);
    assert_eq!(r.score, 60);
}

#[test]
fn json5_reading() {
    let v = read_json("{ // comment\n a: 1, 'b': [true, null,], }").unwrap();
    assert_eq!(v.get("a"), Some(&n(1)));
    assert_eq!(v.get("b"), Some(&Json::Array(vec![Json::Bool(true), Json::Null])));
    assert!(read_json("{").is_err());
    assert!(!read_json("{").unwrap_err().is_empty());
}

#[test]
fn config_read_steps() {
    assert_eq!(DEFAULT_CONFIG, "{}");
    assert_eq!(text_or_default(None), "{}");
    assert_eq!(text_or_default(Some("x".to_string())), "x");
    assert_eq!(empty_object(), Json::Object(vec![]));
    assert_eq!(read_config_step(0, Ok(s("v"))), ConfigRead::Done(s("v")));
    assert_eq!(read_config_step(0, Err("e".into())), ConfigRead::RetryAfter { millis: 50 });
    assert_eq!(CONFIG_RETRY_MILLIS, 50);
    assert_eq!(read_config_step(1, Err("e".into())), ConfigRead::Done(Json::Object(vec![])));
    assert_eq!(read_config_step(1, Ok(Json::Null)), ConfigRead::Done(Json::Null));
    assert_eq!(read_openclaw_config(0, "{a:1}"), ConfigRead::Done(obj(vec![("a", n(1))])));
    assert_eq!(read_openclaw_config(0, "{a:"), ConfigRead::RetryAfter { millis: 50 });
    assert_eq!(read_openclaw_config(1, "{a:"), ConfigRead::Done(Json::Object(vec![])));
}

#[test]
fn pretty_writing() {
    let v = obj(vec![("b", n(1)), ("a", Json::Array(vec![s("x")]))]);
    assert_eq!(
        write_json(&v),
        Some("{\n  \"a\": [\n    \"x\"\n  ],\n  \"b\": 1\n}".to_string())
    );
}

#[test]
fn trailing_commas_are_removed() {
    assert_eq!(clean_json("{\"a\": [1, 2, ], }"), Ok("{\"a\": [1, 2 ] }".to_string()));
    assert_eq!(clean_json("{\"a\":1,\n}"), Ok("{\"a\":1\n}".to_string()));
    assert_eq!(clean_json("{\"a\":1}"), Ok("{\"a\":1}".to_string()));
}

#[test]
fn list_membership() {
    assert!(list_has(&ids(&["a", "b"]), "b"));
    assert!(!list_has(&ids(&["a", "b"]), "c"));
    assert!(!list_has(&vec![], ""));
}

#[test]
fn with_member_adds_to_objects_only() {
    let v = with_member(obj(vec![("a", n(1))]), "a", n(2));
    assert_eq!(v.get("a"), Some(&n(2)));
    assert_eq!(v.to_text(), "{\"a\":2}");
    assert_eq!(with_member(Json::Null, "a", n(2)), Json::Null);
}

#[test]
fn repair_agents() {
    let (fixed_cfg, fixed) = repair(obj(vec![]), &ids(&["field.agents"]), Err("unused".into()));
    assert_eq!(fixed, ids(&["field.agents"]));
    assert_eq!(
        fixed_cfg,
        obj(vec![("agents", obj(vec![("defaults", obj(vec![("model", s("gpt-4o"))]))]))])
    );
    let has = obj(vec![("agents", n(1))]);
    let (same, fixed) = repair(has.clone(), &ids(&["field.agents"]), Err("unused".into()));
    assert_eq!(same, has);
    assert!(fixed.is_empty());
    let (still_null, fixed) = repair(Json::Null, &ids(&["field.agents"]), Err("unused".into()));
    assert_eq!(still_null, Json::Null);
    assert_eq!(fixed, ids(&["field.agents"]));
}

#[test]
fn repair_syntax_and_port() {
    let safe = obj(vec![("agents", obj(vec![]))]);
    let (cfg, fixed) = repair(Json::Null, &ids(&["json.syntax"]), Ok(safe.clone()));
    assert_eq!(cfg, safe);
    assert_eq!(fixed, ids(&["json.syntax"]));
    let (cfg, fixed) = repair(Json::Null, &ids(&["json.syntax"]), Err("no".into()));
    assert_eq!(cfg, Json::Null);
    assert!(fixed.is_empty());
    let (cfg, fixed) = repair(obj(vec![]), &ids(&["json.syntax"]), Ok(safe.clone()));
    assert_eq!(cfg, obj(vec![]));
    assert!(fixed.is_empty());
    let start = obj(vec![("gateway", obj(vec![("host", s("h")), ("port", n(99999))]))]);
    let (cfg, fixed) = repair(start, &ids(&["field.port"]), Err("no".into()));
    assert_eq!(fixed, ids(&["field.port"]));
    assert_eq!(gateway_port_of(&cfg), Some(8080));
    assert_eq!(cfg.to_text(), "{\"gateway\":{\"host\":\"h\",\"port\":8080}}");
    let (cfg, fixed) = repair(obj(vec![("gateway", n(3))]), &ids(&["field.port"]), Err("no".into()));
    assert_eq!(fixed, ids(&["field.port"]));
    assert_eq!(cfg.to_text(), "{\"gateway\":{\"port\":8080}}");
}

#[test]
fn repair_order_is_agents_syntax_port() {
    let (cfg, fixed) = repair(
        obj(vec![]),
        &ids(&["field.port", "json.syntax", "field.agents"]),
        Ok(Json::Null),
    );
    assert_eq!(fixed, ids(&["field.agents", "field.port"]));
    assert_eq!(
        cfg.to_text(),
        "{\"agents\":{\"defaults\":{\"model\":\"gpt-4o\"}},\"gateway\":{\"port\":8080}}"
    );
}

#[test]
fn auto_fixes_write_pretty_text() {
    let out = apply_auto_fixes("{}", &ids(&["field.agents"]));
    assert_eq!(out.fixed, ids(&["field.agents"]));
    assert_eq!(
        out.write,
        Some("{\n  \"agents\": {\n    \"defaults\": {\n      \"model\": \"gpt-4o\"\n    }\n  }\n}".to_string())
    );
}

#[test]
fn auto_fixes_without_repairs_write_nothing() {
    let out = apply_auto_fixes("{agents: 1}", &ids(&["field.agents", "permission.config"]));
    assert!(out.fixed.is_empty());
    assert_eq!(out.write, None);
    let out = apply_auto_fixes("{", &vec![]);
    assert!(out.fixed.is_empty());
    assert_eq!(out.write, None);
}

#[test]
fn auto_fixes_on_null_and_broken_text() {
    let out = apply_auto_fixes("null", &ids(&["json.syntax"]));
    assert_eq!(out.fixed, ids(&["json.syntax"]));
    assert_eq!(
        out.write,
        Some("{\n  \"agents\": {\n    \"defaults\": {\n      \"model\": \"gpt-4o\"\n    }\n  }\n}".to_string())
    );
    let out = apply_auto_fixes("{ broken", &ids(&["json.syntax", "field.port"]));
    assert_eq!(out.fixed, ids(&["field.port"]));
    assert_eq!(out.write, Some("{\n  \"gateway\": {\n    \"port\": 8080\n  }\n}".to_string()));
}
