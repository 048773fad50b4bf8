use kytti::config::{
    ConfigError, ConfigStore, KyttiConfig, Loaded, SecuritySection, ServerSection, VaultSection,
};

/// The text of `key` in a table, where the table and the key are there.
fn text(table: Option<&toml::Value>, key: &str) -> Option<String> {
    table
        .and_then(|t| t.get(key))
        .and_then(|v| v.as_str())
        .map(|s| s.to_string())
}

/// What a TOML parser makes of the text of a configuration.
fn parsed(source: &str) -> Result<KyttiConfig, String> {
    let doc: toml::Table = match toml::from_str(source) {
        Ok(doc) => doc,
        Err(e) => return Err(e.to_string()),
    };
    let vault = doc.get("vault");
    let addr = match text(vault, "addr") {
        Some(addr) => addr,
        None => return Err("missing field `addr`".to_string()),
    };
    let token_path = match text(vault, "token_path") {
        Some(token_path) => token_path,
        None => return Err("missing field `token_path`".to_string()),
    };
    let bind = text(doc.get("server"), "bind");
    let mut path_allowlist: Option<Vec<String>> = None;
    if let Some(list) = doc
        .get("security")
        .and_then(|t| t.get("path_allowlist"))
    {
        let mut prefixes: Vec<String> = Vec::new();
        match list.as_array() {
            Some(items) => {
                for item in items {
                    match item.as_str() {
                        Some(prefix) => prefixes.push(prefix.to_string()),
                        None => return Err("expected a string".to_string()),
                    }
                }
            }
            None => return Err("expected an array".to_string()),
        }
        path_allowlist = Some(prefixes);
    }
    Ok(KyttiConfig::with_defaults(
        VaultSection { addr, token_path },
        bind,
        path_allowlist,
    ))
}

/// The snapshot of a configuration's text with a token file's text.
fn load(source: &str, token: &str) -> Result<Loaded, ConfigError> {
    let config = KyttiConfig::from_file("/etc/kytti/config.toml", Ok(parsed(source)))?;
    Loaded::from_path(config, Ok(token.to_string()))
}

const MINIMAL: &str = r#"
[vault]
addr = "http://127.0.0.1:8200"
token_path = "/tmp/t"
"#;

#[test]
fn parses_full_config() {
    let s = r#"
[vault]
addr = "http://10.10.0.3:8200"
token_path = "/etc/kytti/token"

[server]
bind = "0.0.0.0:6339"

[security]
path_allowlist = ["infra", "apps/foo"]
"#;
    let cfg = KyttiConfig::from_toml_str(parsed(s)).unwrap();
    assert_eq!(cfg.vault.addr, "http://10.10.0.3:8200");
    assert_eq!(cfg.vault.token_path, "/etc/kytti/token");
    assert_eq!(cfg.server.bind, "0.0.0.0:6339");
    assert_eq!(cfg.security.path_allowlist, vec!["infra", "apps/foo"]);
}

#[test]
fn defaults_apply_to_optional_sections() {
    let s = r#"
[vault]
addr = "http://127.0.0.1:8200"
token_path = "/tmp/t"
"#;
    let cfg = KyttiConfig::from_toml_str(parsed(s)).unwrap();
    assert_eq!(cfg.server.bind, "0.0.0.0:6339");
    assert!(cfg.security.path_allowlist.is_empty());
}

#[test]
fn rejects_empty_addr() {
    let s = r#"
[vault]
addr = ""
token_path = "/tmp/t"
"#;
    assert!(KyttiConfig::from_toml_str(parsed(s)).is_err());
    assert!(matches!(
        KyttiConfig::from_toml_str(parsed(s)),
        Err(ConfigError::EmptyAddr)
    ));
}

#[test]
fn rejects_blank_addr() {
    let s = "[vault]\naddr = \" \\t\u{3000}\"\ntoken_path = \"/tmp/t\"\n";
    assert!(matches!(
        KyttiConfig::from_toml_str(parsed(s)),
        Err(ConfigError::EmptyAddr)
    ));
}

#[test]
fn keeps_white_space_in_a_usable_addr() {
    let s = "[vault]\naddr = \" http://h \"\ntoken_path = \" \"\n";
    let cfg = KyttiConfig::from_toml_str(parsed(s)).unwrap();
    assert_eq!(cfg.vault.addr, " http://h ");
    assert_eq!(cfg.vault.token_path, " ");
}

#[test]
fn rejects_empty_token_path() {
    let s = "[vault]\naddr = \"http://h\"\ntoken_path = \"\"\n";
    let err = KyttiConfig::from_toml_str(parsed(s)).unwrap_err();
    assert!(matches!(err, ConfigError::EmptyTokenPath));
    assert_eq!(err.to_string(), "vault.token_path is empty");
}

#[test]
fn the_address_is_checked_before_the_token_path() {
    let s = "[vault]\naddr = \"\"\ntoken_path = \"\"\n";
    assert!(matches!(
        KyttiConfig::from_toml_str(parsed(s)),
        Err(ConfigError::EmptyAddr)
    ));
}

#[test]
fn a_text_that_is_no_configuration_is_a_parse_error() {
    let err = KyttiConfig::from_toml_str(Err("bad toml".to_string())).unwrap_err();
    assert_eq!(err.to_string(), "parse kytti config");
    match err {
        ConfigError::Parse { cause } => assert_eq!(cause, "bad toml"),
        other => panic!("expected Parse, got {other:?}"),
    }
}

#[test]
fn a_missing_file_is_a_read_error() {
    let err = KyttiConfig::from_file("/no/such", Err("gone".to_string())).unwrap_err();
    assert_eq!(err.to_string(), "read kytti config /no/such");
    match err {
        ConfigError::ReadConfig { path, cause } => {
            assert_eq!(path, "/no/such");
            assert_eq!(cause, "gone");
        }
        other => panic!("expected ReadConfig, got {other:?}"),
    }
}

#[test]
fn loaded_reads_token_from_disk() {
    let loaded = load(MINIMAL, "hvs.exampletoken\n").unwrap();
    assert_eq!(loaded.token, "hvs.exampletoken");
    assert_eq!(loaded.config.vault.addr, "http://127.0.0.1:8200");
}

#[test]
fn loaded_rejects_empty_token_file() {
    assert!(load(MINIMAL, "").is_err());
    let err = load(MINIMAL, " \n\t").unwrap_err();
    assert_eq!(err.to_string(), "vault token at /tmp/t is empty");
    assert!(matches!(err, ConfigError::EmptyToken { .. }));
}

#[test]
fn a_missing_token_file_is_a_read_error() {
    let config = KyttiConfig::from_toml_str(parsed(MINIMAL)).unwrap();
    let err = Loaded::from_path(config, Err("denied".to_string())).unwrap_err();
    assert_eq!(err.to_string(), "read vault token /tmp/t");
    match err {
        ConfigError::ReadToken { path, cause } => {
            assert_eq!(path, "/tmp/t");
            assert_eq!(cause, "denied");
        }
        other => panic!("expected ReadToken, got {other:?}"),
    }
}

#[test]
fn store_reload_picks_up_token_change() {
    let mut store =
        ConfigStore::load_from("/etc/kytti/config.toml".to_string(), load(MINIMAL, "first\n"))
            .unwrap();
    assert_eq!(store.snapshot().token, "first");
    store.reload(load(MINIMAL, "second\n")).unwrap();
    assert_eq!(store.snapshot().token, "second");
    assert_eq!(store.path(), "/etc/kytti/config.toml");
}

#[test]
fn a_failed_reload_keeps_the_previous_snapshot() {
    let mut store =
        ConfigStore::load_from("c.toml".to_string(), load(MINIMAL, "first\n")).unwrap();
    let err = store.reload(load(MINIMAL, "")).unwrap_err();
    assert!(matches!(err, ConfigError::EmptyToken { .. }));
    assert_eq!(store.snapshot().token, "first");
    assert_eq!(store.snapshot().config.vault.addr, "http://127.0.0.1:8200");
    assert_eq!(store.path(), "c.toml");
}

#[test]
fn a_store_needs_a_snapshot() {
    let err = ConfigStore::load_from("c.toml".to_string(), load(MINIMAL, "")).unwrap_err();
    assert!(matches!(err, ConfigError::EmptyToken { .. }));
}

#[test]
fn a_copy_of_a_store_is_not_touched_by_a_reload() {
    let mut store =
        ConfigStore::load_from("c.toml".to_string(), load(MINIMAL, "first\n")).unwrap();
    let in_flight = store.copy();
    store.reload(load(MINIMAL, "second\n")).unwrap();
    assert_eq!(in_flight.snapshot().token, "first");
    assert_eq!(store.snapshot().token, "second");
}

#[test]
fn what_is_not_named_takes_the_default() {
    let vault = || VaultSection {
        addr: "http://h".to_string(),
        token_path: "/t".to_string(),
    };
    let cfg = KyttiConfig::with_defaults(vault(), None, None);
    assert_eq!(cfg.vault.addr, "http://h");
    assert_eq!(cfg.vault.token_path, "/t");
    assert_eq!(cfg.server.bind, ServerSection::default().bind);
    assert_eq!(cfg.server.bind, "0.0.0.0:6339");
    assert_eq!(
        cfg.security.path_allowlist,
        SecuritySection::default().path_allowlist
    );
    let cfg = KyttiConfig::with_defaults(
        vault(),
        Some("1.2.3.4:5".to_string()),
        Some(vec!["a".to_string(), "b".to_string()]),
    );
    assert_eq!(cfg.server.bind, "1.2.3.4:5");
    assert_eq!(cfg.security.path_allowlist, vec!["a", "b"]);
}

#[test]
fn copies_hold_the_same() {
    let s = "[vault]\naddr = \"http://h\"\ntoken_path = \"/t\"\n[security]\npath_allowlist = [\"a\", \"b\"]\n";
    let loaded = load(s, "tok").unwrap();
    let copy = loaded.clone();
    assert_eq!(copy.token, "tok");
    assert_eq!(copy.config.vault.addr, "http://h");
    assert_eq!(copy.config.vault.token_path, "/t");
    assert_eq!(copy.config.server.bind, "0.0.0.0:6339");
    assert_eq!(copy.config.security.path_allowlist, vec!["a", "b"]);
    let store = ConfigStore::load_from("c.toml".to_string(), Ok(loaded)).unwrap();
    assert_eq!(store.copy().path(), "c.toml");
    assert_eq!(store.copy().snapshot().token, "tok");
}
