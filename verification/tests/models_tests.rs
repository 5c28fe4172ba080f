use clawpal::models::{
    env_path, expand_user_path, join, legacy_dir, path_of, plan_migration, resolve_paths,
    Migration, PathEnv, PathParts,
};

fn path(base: &str, parts: &[&str]) -> PathParts {
    PathParts { base: base.to_string(), parts: parts.iter().map(|p| p.to_string()).collect() }
}

#[test]
fn joining() {
    assert_eq!(path_of("/home/u"), path("/home/u", &[]));
    assert_eq!(join(&path_of("/home/u"), ".openclaw"), path("/home/u", &[".openclaw"]));
    assert_eq!(join(&path("/a", &["b"]), "c"), path("/a", &["b", "c"]));
}

#[test]
fn expanding_user_paths() {
    assert_eq!(expand_user_path("~/x/y", Some("/home/u")), path("/home/u", &["x/y"]));
    assert_eq!(expand_user_path("~/", Some("/home/u")), path("/home/u", &[""]));
    assert_eq!(expand_user_path("~/x", None), path("~/x", &[]));
    assert_eq!(expand_user_path("~x", Some("/home/u")), path("~x", &[]));
    assert_eq!(expand_user_path("/abs", Some("/home/u")), path("/abs", &[]));
    assert_eq!(expand_user_path("", Some("/home/u")), path("", &[]));
    assert_eq!(expand_user_path("~", Some("/home/u")), path("~", &[]));
}

#[test]
fn env_paths() {
    assert_eq!(env_path(None, Some("/h")), None);
    assert_eq!(env_path(Some(""), Some("/h")), None);
    assert_eq!(env_path(Some("  \t"), Some("/h")), None);
    assert_eq!(env_path(Some("  /data "), Some("/h")), Some(path("/data", &[])));
    assert_eq!(env_path(Some(" ~/d "), Some("/h")), Some(path("/h", &["d"])));
}

#[test]
fn defaults_below_home() {
    let env = PathEnv { home: Some("/home/u".into()), clawpal_openclaw_dir: None, openclaw_home: None, clawpal_data_dir: None };
    let p = resolve_paths(&env);
    assert_eq!(p.openclaw_dir, path("/home/u", &[".openclaw"]));
    assert_eq!(p.base_dir, p.openclaw_dir);
    assert_eq!(p.config_path, path("/home/u", &[".openclaw", "openclaw.json"]));
    assert_eq!(p.clawpal_dir, path("/home/u", &[".clawpal"]));
    assert_eq!(p.history_dir, path("/home/u", &[".clawpal", "history"]));
    assert_eq!(p.metadata_path, path("/home/u", &[".clawpal", "metadata.json"]));
    assert_eq!(legacy_dir(&p), path("/home/u", &[".openclaw", ".clawpal"]));
}

#[test]
fn without_home_uses_current_directory() {
    let env = PathEnv { home: None, clawpal_openclaw_dir: None, openclaw_home: None, clawpal_data_dir: None };
    let p = resolve_paths(&env);
    assert_eq!(p.openclaw_dir, path(".", &[".openclaw"]));
    assert_eq!(p.clawpal_dir, path(".", &[".clawpal"]));
}

#[test]
fn overrides_in_order() {
    let env = PathEnv {
        home: Some("/home/u".into()),
        clawpal_openclaw_dir: Some("/first".into()),
        openclaw_home: Some("/second".into()),
        clawpal_data_dir: Some("~/data".into()),
    };
    let p = resolve_paths(&env);
    assert_eq!(p.openclaw_dir, path("/first", &[]));
    assert_eq!(p.config_path, path("/first", &["openclaw.json"]));
    assert_eq!(p.clawpal_dir, path("/home/u", &["data"]));
    let env = PathEnv {
        home: Some("/home/u".into()),
        clawpal_openclaw_dir: Some("   ".into()),
        openclaw_home: Some("/second".into()),
        clawpal_data_dir: Some("".into()),
    };
    let p = resolve_paths(&env);
    assert_eq!(p.openclaw_dir, path("/second", &[]));
    assert_eq!(p.clawpal_dir, path("/home/u", &[".clawpal"]));
}

#[test]
fn migration_plan() {
    assert_eq!(plan_migration(false, false), Migration::Nothing);
    assert_eq!(plan_migration(false, true), Migration::Nothing);
    assert_eq!(plan_migration(true, false), Migration::Rename);
    assert_eq!(plan_migration(true, true), Migration::RemoveLegacy);
}
