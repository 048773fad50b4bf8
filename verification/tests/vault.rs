use kytti::config::{ConfigStore, KyttiConfig, Loaded, SecuritySection, ServerSection, VaultSection};
use kytti::errors::{KyttiError, TransportFault};
use kytti::json::Json;
use kytti::map::StringMap;
use kytti::vault::{
    coerce_value, collect_body, list_url, map_status_code, parse_get_response, parse_list_response,
    parse_renew_response, parse_status_response, read_url, renew_url, status_url, Method, Reply,
    Response, VaultClient, VaultStatus, TOKEN_HEADER,
};

fn doc(text: &str) -> Json {
    Json::parse(text.as_bytes()).expect("a document")
}

fn response(status: u16, body: &str) -> Response {
    Response {
        status,
        body: Ok(body.as_bytes().to_vec()),
    }
}

fn reply(status: u16, body: &str) -> Reply {
    Ok(response(status, body))
}

fn timeout() -> TransportFault {
    TransportFault {
        timeout: true,
        connect: false,
        decode: false,
        request: false,
    }
}

fn store() -> ConfigStore {
    let loaded = Loaded {
        config: KyttiConfig {
            vault: VaultSection {
                addr: "http://127.0.0.1:8200/".to_string(),
                token_path: "/dev/null".to_string(),
            },
            server: ServerSection::default(),
            security: SecuritySection::default(),
        },
        token: "test-token".to_string(),
    };
    ConfigStore::load_from("/dev/null".to_string(), Ok(loaded)).expect("a store")
}

fn client() -> VaultClient {
    VaultClient::new(store(), Ok(())).expect("client builds")
}

fn pairs(map: &StringMap) -> Vec<(&str, &str)> {
    let mut out = Vec::new();
    for i in 0..map.len() {
        let (k, v) = map.at(i);
        out.push((k.as_str(), v.as_str()));
    }
    out
}

#[test]
fn url_builders_handle_trailing_slashes() {
    assert_eq!(
        read_url("http://10.10.0.3:8200/", "infra/telegram"),
        "http://10.10.0.3:8200/v1/secret/data/infra/telegram"
    );
    assert_eq!(
        read_url("http://10.10.0.3:8200", "/infra/telegram/"),
        "http://10.10.0.3:8200/v1/secret/data/infra/telegram"
    );
    assert_eq!(
        list_url("http://10.10.0.3:8200", "infra"),
        "http://10.10.0.3:8200/v1/secret/metadata/infra"
    );
    assert_eq!(
        status_url("http://10.10.0.3:8200/"),
        "http://10.10.0.3:8200/v1/sys/seal-status"
    );
}

#[test]
fn more_slashes_change_no_url() {
    assert_eq!(renew_url("http://h//"), "http://h/v1/auth/token/renew-self");
    assert_eq!(list_url("http://h", ""), "http://h/v1/secret/metadata/");
    assert_eq!(list_url("http://h//", "//a/b//"), "http://h/v1/secret/metadata/a/b");
    assert_eq!(read_url("///", "/"), "/v1/secret/data/");
}

#[test]
fn addresses_tell_paths_and_kinds_apart() {
    let paths = ["", "a", "a/b", "ab", "data/a", "metadata/a"];
    for p in paths {
        for q in paths {
            assert_eq!(read_url("http://h", p) == read_url("http://h", q), p == q);
            assert_eq!(list_url("http://h", p) == list_url("http://h", q), p == q);
            assert_ne!(read_url("http://h", p), list_url("http://h", q));
        }
    }
}

#[test]
fn parses_unsealed_status() {
    let body = doc(
        "{\"sealed\": false, \"initialized\": true, \"version\": \"1.21.4\", \"cluster_name\": \"vault-cluster-x\"}",
    );
    let s = parse_status_response(&body).unwrap();
    assert!(!s.sealed);
    assert!(s.initialized);
    assert_eq!(s.version, "1.21.4");
    assert_eq!(s.cluster_name.as_deref(), Some("vault-cluster-x"));
}

#[test]
fn parses_sealed_status_without_cluster_name() {
    let body = doc("{\"sealed\": true, \"initialized\": true, \"version\": \"1.21.4\"}");
    let s = parse_status_response(&body).unwrap();
    assert!(s.sealed);
    assert!(s.initialized);
    assert!(s.cluster_name.is_none());
}

#[test]
fn status_needs_its_two_flags_only() {
    let s = parse_status_response(&doc(
        "{\"sealed\":true,\"initialized\":false,\"version\":7,\"cluster_name\":\"\"}",
    ))
    .unwrap();
    assert!(s.sealed && !s.initialized);
    assert_eq!(s.version, "");
    assert!(s.cluster_name.is_none());
    for text in [
        "{}",
        "[]",
        "{\"sealed\":true}",
        "{\"initialized\":true}",
        "{\"sealed\":\"true\",\"initialized\":true}",
        "{\"sealed\":true,\"initialized\":1}",
    ] {
        let e = parse_status_response(&doc(text)).unwrap_err();
        assert_eq!(e.to_string(), "vault internal error: vault response malformed");
    }
}

#[test]
fn parses_get_response_extracts_data_data() {
    let body = doc(
        "{\"data\":{\"data\":{\"lou_bot\":\"abc\",\"main\":\"xyz\"},\"metadata\":{\"version\":3}}}",
    );
    let map = parse_get_response(&body).unwrap();
    assert_eq!(map.get("lou_bot"), Some(&"abc".to_string()));
    assert_eq!(map.get("main"), Some(&"xyz".to_string()));
    assert_eq!(map.len(), 2);
}

#[test]
fn parses_get_coerces_non_string_values() {
    let body = doc("{\"data\":{\"data\":{\"n\":42,\"b\":true,\"obj\":{\"x\":1}},\"metadata\":{}}}");
    let map = parse_get_response(&body).unwrap();
    assert_eq!(map.get("n"), Some(&"42".to_string()));
    assert_eq!(map.get("b"), Some(&"true".to_string()));
    assert_eq!(map.get("obj"), Some(&"{\"x\":1}".to_string()));
}

#[test]
fn every_sort_of_value_is_coerced() {
    for (text, wanted) in [
        ("null", "null"),
        ("false", "false"),
        ("-3", "-3"),
        ("1.50", "1.5"),
        ("\"a b\"", "a b"),
        ("\"\"", ""),
        ("[1, \"x\"]", "[1,\"x\"]"),
        ("{\"b\":1, \"a\":null}", "{\"a\":null,\"b\":1}"),
    ] {
        assert_eq!(coerce_value(&doc(text)), wanted);
    }
}

#[test]
fn get_field_selector_returns_only_named_field() {
    let body = doc("{\"data\":{\"data\":{\"lou_bot\":\"abc\",\"main\":\"xyz\"},\"metadata\":{}}}");
    let mut data = parse_get_response(&body).unwrap();
    let v = data.remove("lou_bot").unwrap();
    assert_eq!(v, "abc");
    let answer = "{\"data\":{\"data\":{\"lou_bot\":\"abc\",\"main\":\"xyz\"},\"metadata\":{}}}";
    let map = client().get(reply(200, answer), Some("lou_bot")).unwrap();
    assert_eq!(pairs(&map), vec![("lou_bot", "abc")]);
}

#[test]
fn get_missing_field_is_not_found() {
    let body = doc("{\"data\":{\"data\":{\"a\":\"1\"},\"metadata\":{}}}");
    let mut data = parse_get_response(&body).unwrap();
    assert!(data.remove("nope").is_none(), "missing field → NotFound");
    let answer = "{\"data\":{\"data\":{\"a\":\"1\"},\"metadata\":{}}}";
    assert!(matches!(
        client().get(reply(200, answer), Some("nope")),
        Err(KyttiError::NotFound)
    ));
}

#[test]
fn parses_list_response_keys() {
    let body = doc("{\"data\":{\"keys\":[\"default\",\"telegram\",\"opnsense\"]}}");
    let keys = parse_list_response(&body).unwrap();
    assert_eq!(keys, vec!["default", "telegram", "opnsense"]);
}

#[test]
fn malformed_get_response_is_internal_error() {
    let body = doc("{\"unexpected\":\"shape\"}");
    let e = parse_get_response(&body).unwrap_err();
    assert_eq!(e.kind(), "Internal");
}

#[test]
fn malformed_shapes_are_refused() {
    for text in [
        "{\"data\":{}}",
        "{\"data\":{\"data\":[]}}",
        "{\"data\":{\"data\":null}}",
        "{\"data\":[]}",
        "null",
    ] {
        let e = parse_get_response(&doc(text)).unwrap_err();
        assert_eq!(e.to_string(), "vault internal error: vault response malformed");
    }
    for text in [
        "{\"data\":{}}",
        "{\"data\":{\"keys\":{}}}",
        "{\"data\":{\"keys\":[\"a\",1]}}",
        "{\"keys\":[]}",
    ] {
        let e = parse_list_response(&doc(text)).unwrap_err();
        assert_eq!(e.to_string(), "vault internal error: vault response malformed");
    }
}

#[test]
fn empty_secrets_and_folders_are_fine() {
    assert_eq!(parse_get_response(&doc("{\"data\":{\"data\":{}}}")).unwrap().len(), 0);
    assert!(parse_list_response(&doc("{\"data\":{\"keys\":[]}}")).unwrap().is_empty());
}

#[test]
fn the_lease_is_read_or_zero() {
    assert_eq!(parse_renew_response(&doc("{\"auth\":{\"lease_duration\":2764800}}")), 2764800);
    for text in [
        "{}",
        "{\"auth\":{}}",
        "{\"auth\":{\"lease_duration\":-1}}",
        "{\"auth\":{\"lease_duration\":1.5}}",
        "{\"auth\":{\"lease_duration\":\"9\"}}",
        "{\"auth\":9}",
    ] {
        assert_eq!(parse_renew_response(&doc(text)), 0);
    }
}

#[test]
fn map_404_to_not_found() {
    assert!(matches!(map_status_code(404, None), KyttiError::NotFound));
}

#[test]
fn map_403_to_forbidden() {
    assert!(matches!(map_status_code(403, None), KyttiError::Forbidden));
}

#[test]
fn map_503_with_sealed_flag_to_sealed() {
    let body = doc("{\"sealed\":true}");
    let e = map_status_code(503, Some(&body));
    match e {
        KyttiError::Sealed { will_retry } => assert!(will_retry),
        other => panic!("expected Sealed, got {other:?}"),
    }
}

#[test]
fn map_503_without_sealed_flag_to_internal() {
    let e = map_status_code(503, None);
    assert_eq!(e.kind(), "Internal");
}

#[test]
fn list_on_leaf_returns_not_found() {
    let e = map_status_code(404, None);
    assert!(matches!(e, KyttiError::NotFound));
    assert!(matches!(
        client().list(reply(404, "{\"errors\":[]}")),
        Err(KyttiError::NotFound)
    ));
}

#[test]
fn other_statuses_are_internal() {
    for (status, wanted) in [
        (503, "vault internal error: vault unavailable"),
        (500, "vault internal error: vault returned 500"),
        (599, "vault internal error: vault returned 599"),
        (400, "vault internal error: vault rejected request"),
        (429, "vault internal error: vault rejected request"),
        (499, "vault internal error: vault rejected request"),
        (204, "vault internal error: vault returned 204"),
        (302, "vault internal error: vault returned 302"),
        (600, "vault internal error: vault returned 600"),
    ] {
        assert_eq!(map_status_code(status, None).to_string(), wanted);
    }
    for text in ["{\"sealed\":false}", "{\"sealed\":\"true\"}", "[]"] {
        let e = map_status_code(503, Some(&doc(text)));
        assert_eq!(e.to_string(), "vault internal error: vault unavailable");
    }
    let sealed = doc("{\"sealed\":true}");
    assert_eq!(map_status_code(500, Some(&sealed)).kind(), "Internal");
}

#[test]
fn bodies_are_drained_by_status() {
    assert_eq!(
        collect_body(response(200, "{\"a\":[1]}")).unwrap().to_text(),
        "{\"a\":[1]}"
    );
    assert_eq!(
        collect_body(response(201, "{\"a\":1}")).unwrap().to_text(),
        "{\"a\":1}"
    );
    assert_eq!(collect_body(response(299, "[]")).unwrap().to_text(), "[]");
    let told = |r: Response| collect_body(r).unwrap_err().to_string();
    assert_eq!(
        told(response(204, "")),
        "vault internal error: vault response malformed"
    );
    assert_eq!(
        told(response(199, "{}")),
        "vault internal error: vault returned 199"
    );
    assert_eq!(
        told(response(300, "{}")),
        "vault internal error: vault returned 300"
    );
    assert_eq!(
        told(response(200, "<html>")),
        "vault internal error: vault response malformed"
    );
    assert_eq!(told(response(503, "{\"sealed\":true}")), "vault is sealed");
    assert_eq!(
        told(response(503, "<html>")),
        "vault internal error: vault unavailable"
    );
    assert_eq!(told(response(403, "")), "vault returned Forbidden — check token policy");
    assert_eq!(
        told(Response {
            status: 200,
            body: Err(timeout())
        }),
        "vault network error: timeout"
    );
    assert_eq!(
        told(Response {
            status: 404,
            body: Err(timeout())
        }),
        "vault returned NotFound"
    );
}

#[test]
fn requests_carry_what_they_should() {
    let c = client();
    let r = c.status_request();
    assert_eq!(r.method, Method::Get);
    assert_eq!(r.url, "http://127.0.0.1:8200/v1/sys/seal-status");
    assert_eq!(r.token, None);
    let r = c.get_request("infra/telegram");
    assert_eq!(r.method, Method::Get);
    assert_eq!(r.url, "http://127.0.0.1:8200/v1/secret/data/infra/telegram");
    assert_eq!(r.token.as_deref(), Some("test-token"));
    let r = c.list_request("");
    assert_eq!(r.method, Method::List);
    assert_eq!(r.url, "http://127.0.0.1:8200/v1/secret/metadata/");
    assert_eq!(r.token.as_deref(), Some("test-token"));
    let r = c.renew_request();
    assert_eq!(r.method, Method::Post);
    assert_eq!(r.url, "http://127.0.0.1:8200/v1/auth/token/renew-self");
    assert_eq!(r.token.as_deref(), Some("test-token"));
}

#[test]
fn status_replies_are_read() {
    let c = client();
    let s = c
        .status(reply(299, "{\"sealed\":true,\"initialized\":true}"))
        .unwrap();
    assert!(s.sealed);
    let told = |r: Reply| client().status(r).unwrap_err().to_string();
    assert_eq!(
        told(reply(503, "{\"sealed\":true}")),
        "vault internal error: seal-status returned 503"
    );
    assert_eq!(told(reply(199, "{}")), "vault internal error: seal-status returned 199");
    assert_eq!(told(reply(300, "{}")), "vault internal error: seal-status returned 300");
    assert_eq!(
        told(reply(200, "no")),
        "vault internal error: vault response malformed"
    );
    assert_eq!(told(Err(timeout())), "vault network error: timeout");
}

#[test]
fn get_replies_are_read() {
    let c = client();
    let answer = "{\"data\":{\"data\":{\"b\":2,\"a\":\"x\"}}}";
    assert_eq!(
        pairs(&c.get(reply(200, answer), None).unwrap()),
        vec![("a", "x"), ("b", "2")]
    );
    assert_eq!(
        pairs(&c.get(reply(200, answer), Some("b")).unwrap()),
        vec![("b", "2")]
    );
    assert_eq!(c.get(reply(403, ""), None).unwrap_err().kind(), "Forbidden");
    assert_eq!(c.get(reply(404, ""), Some("b")).unwrap_err().kind(), "NotFound");
    assert_eq!(c.get(Err(timeout()), None).unwrap_err().kind(), "Network");
    assert_eq!(c.get(reply(201, answer), Some("a")).unwrap().len(), 1);
    assert_eq!(c.get(reply(300, answer), None).unwrap_err().kind(), "Internal");
}

#[test]
fn list_and_renew_replies_are_read() {
    let c = client();
    assert_eq!(
        c.list(reply(200, "{\"data\":{\"keys\":[\"b/\",\"a\"]}}")).unwrap(),
        vec!["b/", "a"]
    );
    assert_eq!(c.list(Err(timeout())).unwrap_err().kind(), "Network");
    assert_eq!(
        c.renew_self(reply(200, "{\"auth\":{\"lease_duration\":60}}")).unwrap(),
        60
    );
    assert_eq!(c.renew_self(reply(200, "{}")).unwrap(), 0);
    assert_eq!(
        c.renew_self(reply(503, "{\"sealed\":true}")).unwrap_err().kind(),
        "Sealed"
    );
}

#[test]
fn a_client_needs_its_http_client() {
    let e = VaultClient::new(store(), Err("no tls".to_string())).unwrap_err();
    assert_eq!(e.to_string(), "vault internal error: http client build: no tls");
    assert_eq!(client().snapshot().token, "test-token");
    assert_eq!(VaultClient::CONNECT_TIMEOUT_SECS, 5);
    assert_eq!(VaultClient::TIMEOUT_SECS, 10);
}

#[test]
fn verbs_and_the_header_are_spelled() {
    assert_eq!(Method::Get.verb(), "GET");
    assert_eq!(Method::List.verb(), "LIST");
    assert_eq!(Method::Post.verb(), "POST");
    assert_eq!(TOKEN_HEADER, "X-Vault-Token");
}

#[test]
fn a_copy_of_a_status_holds_the_same() {
    let status = VaultStatus {
        sealed: true,
        initialized: false,
        version: "1".to_string(),
        cluster_name: Some("c".to_string()),
    };
    let copy = status.clone();
    assert!(copy.sealed && !copy.initialized);
    assert_eq!(copy.version, "1");
    assert_eq!(copy.cluster_name.as_deref(), Some("c"));
}
