use kytti::errors::{ErrorCategory, ErrorReply, KyttiError, TransportFault};

fn fault(timeout: bool, connect: bool, decode: bool, request: bool) -> TransportFault {
    TransportFault {
        timeout,
        connect,
        decode,
        request,
    }
}

fn text_of<'a>(reply: &'a ErrorReply, name: &str) -> Option<&'a str> {
    reply.data.get(name).and_then(|v| v.as_str())
}

#[test]
fn variant_tags_are_stable() {
    assert_eq!(KyttiError::NotFound.kind(), "NotFound");
    assert_eq!(KyttiError::Forbidden.kind(), "Forbidden");
    assert_eq!(KyttiError::Sealed { will_retry: true }.kind(), "Sealed");
    assert_eq!(KyttiError::BadPath.kind(), "BadPath");
    assert_eq!(KyttiError::Network("x".into()).kind(), "Network");
    assert_eq!(KyttiError::Internal("x".into()).kind(), "Internal");
}

#[test]
fn display_does_not_leak_path_or_token() {
    let cases = [
        KyttiError::NotFound.to_string(),
        KyttiError::Forbidden.to_string(),
        KyttiError::Sealed { will_retry: true }.to_string(),
        KyttiError::BadPath.to_string(),
        KyttiError::Network("connect failed".into()).to_string(),
    ];
    for s in cases {
        assert!(!s.contains("X-Vault-Token"));
        assert!(!s.contains("hvs."));
        assert!(!s.contains("/v1/secret/"));
    }
}

#[test]
fn messages_are_exact() {
    assert_eq!(KyttiError::NotFound.to_string(), "vault returned NotFound");
    assert_eq!(
        KyttiError::Forbidden.to_string(),
        "vault returned Forbidden — check token policy"
    );
    assert_eq!(
        KyttiError::Sealed { will_retry: false }.to_string(),
        "vault is sealed"
    );
    assert_eq!(
        KyttiError::BadPath.to_string(),
        "path not allowed by policy"
    );
    assert_eq!(
        KyttiError::Network("timeout".into()).to_string(),
        "vault network error: timeout"
    );
    assert_eq!(
        KyttiError::Internal("x".into()).to_string(),
        "vault internal error: x"
    );
}

#[test]
fn into_mcp_error_carries_kind() {
    let reply: ErrorReply = KyttiError::NotFound.into();
    assert_eq!(text_of(&reply, "kind"), Some("NotFound"));
    assert!(reply.data.get("will_retry").is_none());
}

#[test]
fn sealed_carries_will_retry() {
    let reply: ErrorReply = KyttiError::Sealed { will_retry: true }.into();
    assert_eq!(text_of(&reply, "kind"), Some("Sealed"));
    assert_eq!(
        reply.data.get("will_retry").and_then(|v| v.as_bool()),
        Some(true)
    );
    let reply: ErrorReply = KyttiError::Sealed { will_retry: false }.into();
    assert_eq!(
        reply.data.get("will_retry").and_then(|v| v.as_bool()),
        Some(false)
    );
}

#[test]
fn error_data_is_a_small_object() {
    let reply: ErrorReply = KyttiError::Sealed { will_retry: true }.into();
    assert_eq!(
        reply.data.to_text(),
        "{\"kind\":\"Sealed\",\"will_retry\":true}"
    );
    let reply: ErrorReply = KyttiError::BadPath.into();
    assert_eq!(reply.data.to_text(), "{\"kind\":\"BadPath\"}");
}

#[test]
fn every_error_has_its_category() {
    let cases = [
        (KyttiError::NotFound, ErrorCategory::ResourceNotFound),
        (KyttiError::Forbidden, ErrorCategory::InvalidRequest),
        (KyttiError::BadPath, ErrorCategory::InvalidParams),
        (
            KyttiError::Sealed { will_retry: true },
            ErrorCategory::InternalError,
        ),
        (
            KyttiError::Network("x".into()),
            ErrorCategory::InternalError,
        ),
        (
            KyttiError::Internal("x".into()),
            ErrorCategory::InternalError,
        ),
    ];
    for (err, category) in cases {
        let message = err.to_string();
        let reply = ErrorReply::from(err);
        assert_eq!(reply.category, category);
        assert_eq!(reply.message, message);
    }
}

#[test]
fn faults_are_told_by_fixed_texts() {
    let told = |f: TransportFault| KyttiError::from(f).to_string();
    assert_eq!(
        told(fault(true, true, true, true)),
        "vault network error: timeout"
    );
    assert_eq!(
        told(fault(false, true, true, true)),
        "vault network error: connect failed"
    );
    assert_eq!(
        told(fault(false, false, true, true)),
        "vault internal error: vault response malformed"
    );
    assert_eq!(
        told(fault(false, false, false, true)),
        "vault network error: request failed"
    );
    assert_eq!(
        told(fault(false, false, false, false)),
        "vault network error: transport error"
    );
}
