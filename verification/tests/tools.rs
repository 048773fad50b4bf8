use kytti::config::{ConfigStore, KyttiConfig, Loaded, SecuritySection, ServerSection, VaultSection};
use kytti::errors::{ErrorCategory, KyttiError, TransportFault};
use kytti::json::Json;
use kytti::map::StringMap;
use kytti::tools::{finish, GetArgs, GetResult, Kytti, ListArgs, ListResult};
use kytti::vault::{Method, Reply, Response, VaultStatus};

fn make_kytti_with(addr: &str, token: &str, allowlist: Vec<String>) -> Kytti {
    let loaded = Loaded {
        config: KyttiConfig {
            vault: VaultSection {
                addr: addr.into(),
                token_path: "/dev/null".into(),
            },
            server: ServerSection::default(),
            security: SecuritySection {
                path_allowlist: allowlist,
            },
        },
        token: token.into(),
    };
    let store = ConfigStore::load_from("/dev/null".to_string(), Ok(loaded)).expect("a store");
    Kytti::new(store, Ok(())).expect("client builds")
}

fn make_kytti(allowlist: Vec<String>) -> Kytti {
    make_kytti_with("http://127.0.0.1:8200", "test-token", allowlist)
}

fn get_args(path: &str, field: Option<&str>) -> GetArgs {
    GetArgs {
        path: path.to_string(),
        field: field.map(|s| s.to_string()),
    }
}

fn list_args(path: &str) -> ListArgs {
    ListArgs {
        path: path.to_string(),
    }
}

fn reply(status: u16, body: &str) -> Reply {
    Ok(Response {
        status,
        body: Ok(body.as_bytes().to_vec()),
    })
}

const SECRET: &str = "{\"data\":{\"data\":{\"main\":\"xyz\",\"lou_bot\":\"abc\",\"n\":1},\"metadata\":{}}}";

#[test]
fn validation_rejects_traversal() {
    let k = make_kytti(vec![]);
    assert!(matches!(
        k.validate_path("foo/../bar"),
        Err(KyttiError::BadPath)
    ));
    assert!(matches!(k.validate_path("./bar"), Err(KyttiError::BadPath)));
    assert!(matches!(
        k.validate_path("foo//bar"),
        Err(KyttiError::BadPath)
    ));
}

#[test]
fn validation_strips_outer_slashes() {
    let k = make_kytti(vec![]);
    assert_eq!(
        k.validate_path("/infra/telegram/").unwrap(),
        "infra/telegram"
    );
    assert_eq!(k.validate_path("infra").unwrap(), "infra");
}

#[test]
fn validation_rejects_control_chars() {
    let k = make_kytti(vec![]);
    assert!(matches!(
        k.validate_path("foo\nbar"),
        Err(KyttiError::BadPath)
    ));
    assert!(matches!(
        k.validate_path("foo\0bar"),
        Err(KyttiError::BadPath)
    ));
}

#[test]
fn validation_empty_allowlist_accepts_anything() {
    let k = make_kytti(vec![]);
    assert!(k.validate_path("anywhere/at/all").is_ok());
    assert!(k.validate_path("").is_ok(), "empty ok for list root");
}

#[test]
fn validation_with_allowlist_accepts_prefix_match() {
    let k = make_kytti(vec!["infra".into(), "apps/foo".into()]);
    assert!(k.validate_path("infra").is_ok());
    assert!(k.validate_path("infra/telegram").is_ok());
    assert!(k.validate_path("apps/foo").is_ok());
    assert!(k.validate_path("apps/foo/bar").is_ok());
}

#[test]
fn validation_with_allowlist_rejects_non_match() {
    let k = make_kytti(vec!["infra".into()]);
    assert!(matches!(
        k.validate_path("apps/foo"),
        Err(KyttiError::BadPath)
    ));
    // Prefix must be on a path-segment boundary: "infra-secret" must
    // NOT match prefix "infra".
    assert!(matches!(
        k.validate_path("infra-secret"),
        Err(KyttiError::BadPath)
    ));
}

#[test]
fn validate_get_path_rejects_empty() {
    let k = make_kytti(vec![]);
    assert!(matches!(k.validate_get_path(""), Err(KyttiError::BadPath)));
    assert!(matches!(k.validate_get_path("/"), Err(KyttiError::BadPath)));
}

#[test]
fn validation_edges() {
    let k = make_kytti(vec![]);
    for path in ["..", ".", "a/..", "a/.", "a/./b", "../a", "a//b", "\u{7f}", "a\u{85}b", "\t"] {
        assert!(matches!(k.validate_path(path), Err(KyttiError::BadPath)), "{path:?}");
    }
    for path in ["...", "a.b", ".a", "a..", "a b", "é", "secret/x", "a/.../b"] {
        assert_eq!(k.validate_path(path).unwrap(), path);
        assert_eq!(k.validate_get_path(path).unwrap(), path);
    }
    assert_eq!(k.validate_path("/a/").unwrap(), "a");
    assert_eq!(k.validate_path("/").unwrap(), "");
}

#[test]
fn double_slashes_are_refused_anywhere() {
    for allowlist in [vec![], vec!["infra".to_string()], vec!["/".to_string()]] {
        let k = make_kytti(allowlist);
        for path in [
            "//infra/telegram",
            "infra/telegram//",
            "infra//telegram",
            "//infra//",
            "///a///",
            "/infra//",
            "//",
            "///",
        ] {
            assert!(matches!(k.validate_path(path), Err(KyttiError::BadPath)), "{path}");
            assert!(matches!(k.validate_get_path(path), Err(KyttiError::BadPath)), "{path}");
            assert!(k.vault_list_request(&list_args(path)).is_err(), "{path}");
        }
    }
}

#[test]
fn unsound_paths_are_refused_by_every_allowlist() {
    for allowlist in [vec![], vec!["".to_string()], vec!["..".to_string(), "a".to_string()]] {
        let k = make_kytti(allowlist);
        for path in ["..", "a/../b", "a//b", "a\0"] {
            assert!(matches!(k.validate_path(path), Err(KyttiError::BadPath)));
            assert!(k.vault_get_request(&get_args(path, None)).is_err());
            assert!(k.vault_list_request(&list_args(path)).is_err());
        }
    }
}

#[test]
fn validation_twice_is_validation_once() {
    let k = make_kytti(vec!["/infra/".into()]);
    for path in ["/infra/telegram/", "infra", "/infra"] {
        let once = k.validate_path(path).unwrap();
        assert_eq!(k.validate_path(&once).unwrap(), once);
    }
}

#[test]
fn prefixes_lose_their_outer_slashes() {
    let k = make_kytti(vec!["/infra/".into()]);
    assert!(k.validate_path("infra/x").is_ok());
    assert!(k.validate_path("infrax").is_err());
    assert!(k.validate_path("").is_err());
    let k = make_kytti(vec!["/".into()]);
    assert!(k.validate_path("").is_ok());
    assert!(k.validate_path("infra").is_err());
}

#[test]
fn prefixes_match_by_whole_segments() {
    let k = make_kytti(vec!["apps/foo".into()]);
    for path in ["apps", "apps/foobar", "apps/fo", "foo", "apps/foo2/x"] {
        assert!(k.validate_path(path).is_err(), "{path}");
    }
}

#[test]
fn more_prefixes_let_through_more() {
    let few = make_kytti(vec!["infra".into()]);
    let more = make_kytti(vec!["apps".into(), "infra".into()]);
    for path in ["infra", "infra/x", "apps/y", "other"] {
        if few.validate_path(path).is_ok() {
            assert!(more.validate_path(path).is_ok());
        }
    }
    assert!(more.validate_path("apps/y").is_ok());
}

#[test]
fn requests_of_the_tools_only_read() {
    let k = make_kytti(vec![]);
    let r = k.vault_status_request();
    assert_eq!(r.method, Method::Get);
    assert_eq!(r.url, "http://127.0.0.1:8200/v1/sys/seal-status");
    assert_eq!(r.token, None);
    let r = k.vault_get_request(&get_args("/infra/telegram/", Some("x"))).unwrap();
    assert_eq!(r.method, Method::Get);
    assert_eq!(r.url, "http://127.0.0.1:8200/v1/secret/data/infra/telegram");
    assert_eq!(r.token.as_deref(), Some("test-token"));
    let r = k.vault_list_request(&list_args("/")).unwrap();
    assert_eq!(r.method, Method::List);
    assert_eq!(r.url, "http://127.0.0.1:8200/v1/secret/metadata/");
    assert_eq!(r.token.as_deref(), Some("test-token"));
}

#[test]
fn refused_paths_make_no_request() {
    let k = make_kytti(vec!["infra".into()]);
    let e = k
        .vault_get_request(&get_args("secrets-i-shouldnt-see", None))
        .unwrap_err();
    assert_eq!(e.category, ErrorCategory::InvalidParams);
    assert_eq!(e.message, "path not allowed by policy");
    assert_eq!(e.data.to_text(), "{\"kind\":\"BadPath\"}");
    let e = k
        .vault_get(&get_args("secrets-i-shouldnt-see", None), reply(200, SECRET))
        .unwrap_err();
    assert_eq!(e.message, "path not allowed by policy");
    let e = k.vault_list_request(&list_args("apps")).unwrap_err();
    assert_eq!(e.message, "path not allowed by policy");
    let e = k
        .vault_list(&list_args("apps"), reply(200, "{\"data\":{\"keys\":[]}}"))
        .unwrap_err();
    assert_eq!(e.category, ErrorCategory::InvalidParams);
}

#[test]
fn get_with_a_field_is_a_plain_string() {
    let k = make_kytti(vec![]);
    let got = |field: &str| k.vault_get(&get_args("infra/telegram", Some(field)), reply(200, SECRET));
    assert_eq!(got("lou_bot").unwrap(), "abc");
    assert_eq!(got("n").unwrap(), "1");
    let e = got("nope").unwrap_err();
    assert_eq!(e.category, ErrorCategory::ResourceNotFound);
    assert_eq!(e.data.to_text(), "{\"kind\":\"NotFound\"}");
}

#[test]
fn get_without_a_field_is_the_full_map() {
    let k = make_kytti(vec![]);
    assert_eq!(
        k.vault_get(&get_args("infra/telegram", None), reply(200, SECRET)).unwrap(),
        "{\"data\":{\"lou_bot\":\"abc\",\"main\":\"xyz\",\"n\":\"1\"}}"
    );
    assert_eq!(
        k.vault_get(&get_args("a", None), reply(200, "{\"data\":{\"data\":{}}}")).unwrap(),
        "{\"data\":{}}"
    );
}

#[test]
fn listing_gives_the_names_in_order() {
    let k = make_kytti(vec![]);
    assert_eq!(
        k.vault_list(&list_args(""), reply(200, "{\"data\":{\"keys\":[\"infra/\",\"a\\\"b\"]}}"))
            .unwrap(),
        "{\"keys\":[\"infra/\",\"a\\\"b\"]}"
    );
    let e = k.vault_list(&list_args("infra/telegram"), reply(404, "")).unwrap_err();
    assert_eq!(e.category, ErrorCategory::ResourceNotFound);
}

#[test]
fn status_is_told_as_an_object() {
    let k = make_kytti(vec![]);
    assert_eq!(
        k.vault_status(reply(
            200,
            "{\"sealed\":false,\"initialized\":true,\"version\":\"1.21.4\",\"cluster_name\":\"c\",\"t\":3}"
        ))
        .unwrap(),
        "{\"cluster_name\":\"c\",\"initialized\":true,\"sealed\":false,\"version\":\"1.21.4\"}"
    );
    assert_eq!(
        k.vault_status(reply(200, "{\"sealed\":true,\"initialized\":true}")).unwrap(),
        "{\"initialized\":true,\"sealed\":true,\"version\":\"\"}"
    );
    let e = k.vault_status(reply(503, "")).unwrap_err();
    assert_eq!(e.category, ErrorCategory::InternalError);
    assert_eq!(e.message, "vault internal error: seal-status returned 503");
}

#[test]
fn replies_tell_nothing_of_path_token_or_address() {
    let a = make_kytti_with("http://one", "hvs.one", vec![]);
    let b = make_kytti_with("http://two", "hvs.two", vec!["infra".into()]);
    let fault = TransportFault {
        timeout: false,
        connect: true,
        decode: false,
        request: true,
    };
    let made: [fn() -> Reply; 5] = [
        || reply(200, SECRET),
        || reply(403, "hvs.one"),
        || reply(404, "/v1/secret/data/infra"),
        || reply(503, "{\"sealed\":true}"),
        || reply(500, "<html>"),
    ];
    for make in made {
        let x = a.vault_get(&get_args("apps/x", None), make());
        let y = b.vault_get(&get_args("/infra/y", None), make());
        match (x, y) {
            (Ok(x), Ok(y)) => assert_eq!(x, y),
            (Err(x), Err(y)) => {
                assert_eq!(x.category, y.category);
                assert_eq!(x.message, y.message);
                assert_eq!(x.data.to_text(), y.data.to_text());
                assert!(!x.message.contains("hvs.") && !x.message.contains("/v1/"));
            }
            _ => panic!("the replies differ"),
        }
    }
    let x = a.vault_list(&list_args("apps"), Err(fault)).unwrap_err();
    assert_eq!(x.message, "vault network error: connect failed");
}

#[test]
fn results_are_written_as_json() {
    let status = VaultStatus {
        sealed: true,
        initialized: false,
        version: "v".to_string(),
        cluster_name: None,
    };
    assert_eq!(
        status.to_json().to_text(),
        "{\"initialized\":false,\"sealed\":true,\"version\":\"v\"}"
    );
    let value = GetResult {
        value: Some("x".to_string()),
        data: None,
    };
    assert_eq!(value.to_json().as_str(), Some("x"));
    let mut pairs = StringMap::new();
    pairs.insert("k".to_string(), "v".to_string());
    let both = GetResult {
        value: Some("x".to_string()),
        data: Some(pairs),
    };
    assert_eq!(
        both.to_json().to_text(),
        "{\"data\":{\"k\":\"v\"},\"value\":\"x\"}"
    );
    let nothing = GetResult {
        value: None,
        data: None,
    };
    assert_eq!(nothing.to_json().to_text(), "{}");
    let list = ListResult { keys: vec![] };
    assert_eq!(list.to_json().to_text(), "{\"keys\":[]}");
}

#[test]
fn finishing_writes_texts_as_they_are() {
    assert_eq!(finish(Ok(Json::String("a\"b".to_string()))).unwrap(), "a\"b");
    assert_eq!(
        finish(Ok(Json::Array(vec![Json::String("a\"b".to_string())]))).unwrap(),
        "[\"a\\\"b\"]"
    );
    assert_eq!(finish(Ok(Json::Null)).unwrap(), "null");
    let e = finish(Err(KyttiError::Sealed { will_retry: true })).unwrap_err();
    assert_eq!(e.message, "vault is sealed");
    assert_eq!(e.data.to_text(), "{\"kind\":\"Sealed\",\"will_retry\":true}");
}

#[test]
fn a_gateway_needs_its_http_client() {
    let loaded = Loaded {
        config: KyttiConfig {
            vault: VaultSection {
                addr: "http://h".into(),
                token_path: "t".into(),
            },
            server: ServerSection::default(),
            security: SecuritySection::default(),
        },
        token: "t".into(),
    };
    let store = ConfigStore::load_from("c".to_string(), Ok(loaded)).expect("a store");
    let e = Kytti::new(store, Err("boom".to_string())).unwrap_err();
    assert_eq!(e.to_string(), "vault internal error: http client build: boom");
}

#[test]
fn a_copy_of_a_gateway_decides_alike() {
    let k = make_kytti(vec!["infra".into()]);
    let copy = k.clone();
    for path in ["infra", "apps", "infra//x", ""] {
        assert_eq!(k.validate_path(path).ok(), copy.validate_path(path).ok());
    }
    assert_eq!(copy.vault_status_request().url, k.vault_status_request().url);
}
