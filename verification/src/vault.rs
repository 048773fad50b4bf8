//! Vault's HTTP interface: which request goes out, and what a reply means.
//!
//! KV v2 path scheme: the CLI hides the `data`/`metadata` segment.
//!   `vault kv get  secret/<path>`  is `GET  /v1/secret/data/<path>`
//!   `vault kv list secret/<path>`  is `LIST /v1/secret/metadata/<path>`
//! A read reply wraps the key/value map under `.data.data`. A list reply has the
//! names under `.data.keys`. Listing a leaf (a path that is a secret) gives 404,
//! like a missing folder.

use vstd::prelude::*;
use vstd::string::*;

use crate::config::{ConfigStore, Loaded, LoadedView};
use crate::errors::{malformed, outcome, ErrorView, KyttiError, TransportFault};
use crate::json::{
    bool_in, compact, document, items_view, lemma_items, members_view, natural_in, option_view,
    signed_decimal, text_in, Json, JsonView,
};
use crate::map::StringMap;
use crate::text::{decimal, decimal_text, texts, trim, trim_end, trimmed, trimmed_end, CharClass};

verus! {

/// What Vault says of its own state.
#[derive(Debug)]
pub struct VaultStatus {
    pub sealed: bool,
    pub initialized: bool,
    pub version: String,
    pub cluster_name: Option<String>,
}

/// The model of Vault's state.
pub struct StatusView {
    pub sealed: bool,
    pub initialized: bool,
    pub version: Seq<char>,
    pub cluster_name: Option<Seq<char>>,
}

impl View for VaultStatus {
    type V = StatusView;

    open spec fn view(&self) -> StatusView {
        StatusView {
            sealed: self.sealed,
            initialized: self.initialized,
            version: self.version@,
            cluster_name: match self.cluster_name {
                Some(name) => Some(name@),
                None => None,
            },
        }
    }
}

impl Clone for VaultStatus {
    fn clone(&self) -> (copy: VaultStatus)
        ensures
            copy@ == self@,
    {
        VaultStatus {
            sealed: self.sealed,
            initialized: self.initialized,
            version: self.version.clone(),
            cluster_name: match &self.cluster_name {
                Some(name) => Some(name.clone()),
                None => None,
            },
        }
    }
}

/// The HTTP verbs that the gateway uses.
#[derive(Clone, Copy, Debug, PartialEq, Eq, Structural)]
pub enum Method {
    Get,
    List,
    Post,
}

impl Method {
    /// The verb as HTTP spells it. Listing has one of its own, `LIST`.
    pub open spec fn spelled(self) -> Seq<char> {
        match self {
            Method::Get => "GET"@,
            Method::List => "LIST"@,
            Method::Post => "POST"@,
        }
    }

    /// The verb as HTTP spells it.
    pub fn verb(&self) -> (verb: &'static str)
        ensures
            verb@ == self.spelled(),
    {
        match self {
            Method::Get => "GET",
            Method::List => "LIST",
            Method::Post => "POST",
        }
    }
}

/// The header that carries the token.
pub const TOKEN_HEADER: &'static str = "X-Vault-Token";

/// A request to Vault. The token, where there is one, goes into the header
/// `TOKEN_HEADER`.
#[derive(Debug)]
pub struct Request {
    pub method: Method,
    pub url: String,
    pub token: Option<String>,
}

/// The model of a request.
pub struct RequestView {
    pub method: Method,
    pub url: Seq<char>,
    pub token: Option<Seq<char>>,
}

impl View for Request {
    type V = RequestView;

    open spec fn view(&self) -> RequestView {
        RequestView {
            method: self.method,
            url: self.url@,
            token: match self.token {
                Some(token) => Some(token@),
                None => None,
            },
        }
    }
}

/// A reply of Vault: its status, and its body as far as it could be read.
#[derive(Debug)]
pub struct Response {
    pub status: u16,
    pub body: Result<Vec<u8>, TransportFault>,
}

/// The address under which the token renews itself.
pub open spec fn renew_address(addr: Seq<char>) -> Seq<char> {
    trimmed_end(addr, CharClass::Slash) + "/v1/auth/token/renew-self"@
}

/// The address of a secret.
pub open spec fn read_address(addr: Seq<char>, path: Seq<char>) -> Seq<char> {
    trimmed_end(addr, CharClass::Slash) + "/v1/secret/data/"@ + trimmed(path, CharClass::Slash)
}

/// The address of a folder.
pub open spec fn list_address(addr: Seq<char>, path: Seq<char>) -> Seq<char> {
    trimmed_end(addr, CharClass::Slash) + "/v1/secret/metadata/"@ + trimmed(path, CharClass::Slash)
}

/// The address of Vault's state.
pub open spec fn status_address(addr: Seq<char>) -> Seq<char> {
    trimmed_end(addr, CharClass::Slash) + "/v1/sys/seal-status"@
}

/// The address under which the token renews itself.
pub fn renew_url(addr: &str) -> (url: String)
    ensures
        url@ == renew_address(addr@),
{
    trim_end(addr, CharClass::Slash).to_owned().concat("/v1/auth/token/renew-self")
}

/// The address of the secret at `path`.
pub fn read_url(addr: &str, path: &str) -> (url: String)
    ensures
        url@ == read_address(addr@, path@),
{
    trim_end(addr, CharClass::Slash).to_owned().concat("/v1/secret/data/").concat(
        trim(path, CharClass::Slash),
    )
}

/// The address of the folder at `path`.
pub fn list_url(addr: &str, path: &str) -> (url: String)
    ensures
        url@ == list_address(addr@, path@),
{
    trim_end(addr, CharClass::Slash).to_owned().concat("/v1/secret/metadata/").concat(
        trim(path, CharClass::Slash),
    )
}

/// The address of Vault's state.
pub fn status_url(addr: &str) -> (url: String)
    ensures
        url@ == status_address(addr@),
{
    trim_end(addr, CharClass::Slash).to_owned().concat("/v1/sys/seal-status")
}

/// The error that an HTTP status other than success stands for; `body` is the document
/// that came with it, if one did.
pub open spec fn status_error(status: u16, body: Option<JsonView>) -> ErrorView {
    if status == 403 {
        ErrorView::Forbidden
    } else if status == 404 {
        ErrorView::NotFound
    } else if status == 503 {
        if body is Some && bool_in(body->0.member("sealed"@)) == Some(true) {
            ErrorView::Sealed { will_retry: true }
        } else {
            ErrorView::Internal("vault unavailable"@)
        }
    } else if 400 <= status <= 499 {
        ErrorView::Internal("vault rejected request"@)
    } else {
        ErrorView::Internal("vault returned "@ + decimal(status as nat))
    }
}

/// The error that an HTTP status other than success stands for; `body` is the document
/// that came with it, if one did.
pub fn map_status_code(status: u16, body: Option<&Json>) -> (err: KyttiError)
    ensures
        err@ == status_error(status, option_view(body)),
{
    match status {
        403 => KyttiError::Forbidden,
        404 => KyttiError::NotFound,
        503 => {
            let sealed = match body {
                Some(doc) => match doc.get("sealed") {
                    Some(flag) => match flag.as_bool() {
                        Some(b) => b,
                        None => false,
                    },
                    None => false,
                },
                None => false,
            };
            if sealed {
                KyttiError::Sealed { will_retry: true }
            } else {
                KyttiError::Internal("vault unavailable".to_owned())
            }
        },
        s => if 400 <= s && s <= 499 {
            KyttiError::Internal("vault rejected request".to_owned())
        } else {
            KyttiError::Internal(
                "vault returned ".to_owned().concat(decimal_text(s as u64).as_str()),
            )
        },
    }
}

/// The document in a body, or why there is none.
pub open spec fn document_in(body: Result<Vec<u8>, TransportFault>) -> Result<JsonView, ErrorView> {
    match body {
        Ok(bytes) => match document(bytes@) {
            Some(doc) => Ok(doc),
            None => Err(malformed()),
        },
        Err(fault) => Err(fault.error()),
    }
}

/// The document that a reply with a status of success, 2xx, carries, or the error
/// that the reply stands for.
pub open spec fn collected(response: Response) -> Result<JsonView, ErrorView> {
    if 200 <= response.status <= 299 {
        document_in(response.body)
    } else {
        Err(
            status_error(
                response.status,
                match document_in(response.body) {
                    Ok(doc) => Some(doc),
                    Err(_) => None,
                },
            ),
        )
    }
}

/// Reads the document in a body.
fn read_document(body: Result<Vec<u8>, TransportFault>) -> (doc: Result<Json, KyttiError>)
    ensures
        outcome(doc) == document_in(body),
{
    match body {
        Ok(bytes) => match Json::parse(bytes.as_slice()) {
            Some(doc) => Ok(doc),
            None => Err(KyttiError::malformed()),
        },
        Err(fault) => Err(KyttiError::from(fault)),
    }
}

/// Drains a reply into the document it carries. On a status other than success, 2xx,
/// the body only serves to tell whether Vault is sealed, as far as it can be read.
pub fn collect_body(response: Response) -> (doc: Result<Json, KyttiError>)
    ensures
        outcome(doc) == collected(response),
{
    let status: u16 = response.status;
    if 200 <= status && status <= 299 {
        return read_document(response.body);
    }
    match read_document(response.body) {
        Ok(doc) => Err(map_status_code(status, Some(&doc))),
        Err(_) => Err(map_status_code(status, None)),
    }
}

/// Vault's state as a document tells it.
pub open spec fn status_in(body: JsonView) -> Result<StatusView, ErrorView> {
    match (bool_in(body.member("sealed"@)), bool_in(body.member("initialized"@))) {
        (Some(sealed), Some(initialized)) => Ok(
            StatusView {
                sealed,
                initialized,
                version: match text_in(body.member("version"@)) {
                    Some(version) => version,
                    None => Seq::empty(),
                },
                cluster_name: match text_in(body.member("cluster_name"@)) {
                    Some(name) => if name.len() > 0 {
                        Some(name)
                    } else {
                        None
                    },
                    None => None,
                },
            },
        ),
        _ => Err(malformed()),
    }
}

/// The truth value of the member `name`, if it is there and is one.
fn bool_member(body: &Json, name: &str) -> (b: Option<bool>)
    ensures
        b == bool_in(body@.member(name@)),
{
    match body.get(name) {
        Some(value) => value.as_bool(),
        None => None,
    }
}

/// The text of the member `name`, if it is there and is one.
fn text_member<'a>(body: &'a Json, name: &str) -> (s: Option<&'a str>)
    ensures
        s.is_some() == text_in(body@.member(name@)).is_some(),
        s.is_some() ==> s.unwrap()@ == text_in(body@.member(name@)).unwrap(),
{
    match body.get(name) {
        Some(value) => value.as_str(),
        None => None,
    }
}

/// Reads Vault's state out of a document.
pub fn parse_status_response(body: &Json) -> (status: Result<VaultStatus, KyttiError>)
    ensures
        outcome(status) == status_in(body@),
{
    let sealed = match bool_member(body, "sealed") {
        Some(b) => b,
        None => return Err(KyttiError::malformed()),
    };
    let initialized = match bool_member(body, "initialized") {
        Some(b) => b,
        None => return Err(KyttiError::malformed()),
    };
    let version = match text_member(body, "version") {
        Some(s) => s.to_owned(),
        None => String::new(),
    };
    let cluster_name = match text_member(body, "cluster_name") {
        Some(s) => if s.is_empty() {
            None
        } else {
            Some(s.to_owned())
        },
        None => None,
    };
    Ok(VaultStatus { sealed, initialized, version, cluster_name })
}

/// A value of a secret as text: a text as it is, anything else in its JSON form.
pub open spec fn coerced(value: JsonView) -> Seq<char> {
    match value {
        JsonView::Text(s) => s,
        JsonView::Null => "null"@,
        JsonView::Bool(b) => if b {
            "true"@
        } else {
            "false"@
        },
        JsonView::Integer(n) => signed_decimal(n),
        JsonView::Float(s) => s,
        other => compact(other),
    }
}

/// Writes a value of a secret as text.
pub fn coerce_value(value: &Json) -> (text: String)
    ensures
        text@ == coerced(value@),
{
    match value {
        Json::String(s) => s.as_str().to_owned(),
        Json::Null => "null".to_owned(),
        other => other.to_text(),
    }
}

/// The key/value map of a secret as a document tells it.
pub open spec fn secret_in(body: JsonView) -> Result<Map<Seq<char>, Seq<char>>, ErrorView> {
    match body.member_of("data"@, "data"@) {
        Some(JsonView::Object(members)) => Ok(members.map_values(|v: JsonView| coerced(v))),
        _ => Err(malformed()),
    }
}

/// The member `name` of the member `outer`.
fn inner_member<'a>(body: &'a Json, outer: &str, name: &str) -> (value: Option<&'a Json>)
    ensures
        option_view(value) == body@.member_of(outer@, name@),
{
    match body.get(outer) {
        Some(inner) => inner.get(name),
        None => None,
    }
}

/// Extracts `.data.data` from the document of a read, each value as text.
pub fn parse_get_response(body: &Json) -> (secret: Result<StringMap, KyttiError>)
    ensures
        outcome(secret) == secret_in(body@),
{
    match inner_member(body, "data", "data") {
        Some(Json::Object(members)) => {
            let ghost coerce = |v: JsonView| coerced(v);
            let mut out = StringMap::new();
            let mut i: usize = 0;
            proof {
                assert(members@.take(0) =~= Seq::<(String, Json)>::empty());
                assert(members_view(members@.take(0)).map_values(coerce) =~= out@);
            }
            while i < members.len()
                invariant
                    i <= members@.len(),
                    coerce == (|v: JsonView| coerced(v)),
                    out@ == members_view(members@.take(i as int)).map_values(coerce),
                decreases members.len() - i,
            {
                let ghost before = members_view(members@.take(i as int));
                let value = coerce_value(&members[i].1);
                out.insert(members[i].0.clone(), value);
                proof {
                    assert(members@.take(i + 1).drop_last() =~= members@.take(i as int));
                    assert(members_view(members@.take(i + 1)).map_values(coerce)
                        =~= before.map_values(coerce).insert(
                        members@[i as int].0@,
                        coerced(members@[i as int].1@),
                    ));
                }
                i = i + 1;
            }
            proof {
                assert(members@.take(i as int) =~= members@);
            }
            Ok(out)
        },
        _ => Err(KyttiError::malformed()),
    }
}

/// Whether every value is a text.
pub open spec fn all_texts(items: Seq<JsonView>) -> bool {
    forall|i: int| 0 <= i < items.len() ==> (#[trigger] items[i]) is Text
}

/// The names in a folder as a document tells them.
pub open spec fn names_in(body: JsonView) -> Result<Seq<Seq<char>>, ErrorView> {
    match body.member_of("data"@, "keys"@) {
        Some(JsonView::Array(items)) => if all_texts(items) {
            Ok(Seq::new(items.len(), |i: int| items[i]->Text_0))
        } else {
            Err(malformed())
        },
        _ => Err(malformed()),
    }
}

/// The model of a list of names, or of the error in its place.
pub open spec fn names_outcome(names: Result<Vec<String>, KyttiError>) -> Result<
    Seq<Seq<char>>,
    ErrorView,
> {
    match names {
        Ok(list) => Ok(texts(list@)),
        Err(err) => Err(err@),
    }
}

/// Extracts `.data.keys` from the document of a list, in the order it has.
pub fn parse_list_response(body: &Json) -> (names: Result<Vec<String>, KyttiError>)
    ensures
        names_outcome(names) == names_in(body@),
{
    match inner_member(body, "data", "keys") {
        Some(Json::Array(items)) => {
            let mut out: Vec<String> = Vec::new();
            let mut i: usize = 0;
            proof {
                lemma_items(items@);
            }
            while i < items.len()
                invariant
                    i <= items@.len(),
                    body@.member_of("data"@, "keys"@) == Some(JsonView::Array(items_view(items@))),
                    items_view(items@).len() == items@.len(),
                    forall|j: int|
                        0 <= j < items@.len() ==> #[trigger] items_view(items@)[j] == items@[j]@,
                    out@.len() == i,
                    forall|j: int|
                        0 <= j < i ==> #[trigger] items_view(items@)[j] == JsonView::Text(
                            out@[j]@,
                        ),
                decreases items.len() - i,
            {
                proof {
                    assert(items_view(items@)[i as int] == items@[i as int]@);
                }
                match items[i].as_str() {
                    Some(s) => out.push(s.to_owned()),
                    None => {
                        return Err(KyttiError::malformed());
                    },
                }
                i = i + 1;
            }
            proof {
                let views = items_view(items@);
                assert(texts(out@) =~= Seq::new(views.len(), |i: int| views[i]->Text_0));
            }
            Ok(out)
        },
        _ => Err(KyttiError::malformed()),
    }
}

/// The seconds that a renewed token lives, as a document tells them; 0 where it
/// does not.
pub open spec fn lease_in(body: JsonView) -> int {
    match natural_in(body.member_of("auth"@, "lease_duration"@)) {
        Some(seconds) => seconds,
        None => 0,
    }
}

/// Extracts `.auth.lease_duration` from the document of a renewal.
pub fn parse_renew_response(body: &Json) -> (seconds: u64)
    ensures
        seconds == lease_in(body@),
{
    match inner_member(body, "auth", "lease_duration") {
        Some(value) => match value.as_u64() {
            Some(seconds) => seconds,
            None => 0,
        },
        None => 0,
    }
}

/// The request for Vault's state. It carries no token.
pub open spec fn status_asked(loaded: LoadedView) -> RequestView {
    RequestView { method: Method::Get, url: status_address(loaded.config.addr), token: None }
}

/// The request for a secret.
pub open spec fn get_asked(loaded: LoadedView, path: Seq<char>) -> RequestView {
    RequestView {
        method: Method::Get,
        url: read_address(loaded.config.addr, path),
        token: Some(loaded.token),
    }
}

/// The request for the names in a folder.
pub open spec fn list_asked(loaded: LoadedView, path: Seq<char>) -> RequestView {
    RequestView {
        method: Method::List,
        url: list_address(loaded.config.addr, path),
        token: Some(loaded.token),
    }
}

/// The request that the token live on.
pub open spec fn renew_asked(loaded: LoadedView) -> RequestView {
    RequestView {
        method: Method::Post,
        url: renew_address(loaded.config.addr),
        token: Some(loaded.token),
    }
}

/// What came of a request.
pub type Reply = Result<Response, TransportFault>;

/// The document that came of a request, or the error in its place.
pub open spec fn replied(reply: Reply) -> Result<JsonView, ErrorView> {
    match reply {
        Ok(response) => collected(response),
        Err(fault) => Err(fault.error()),
    }
}

/// What a reply to `status_asked` means. Vault replies with a status of success
/// even where it is sealed.
pub open spec fn status_answer(reply: Reply) -> Result<StatusView, ErrorView> {
    match reply {
        Err(fault) => Err(fault.error()),
        Ok(response) => if 200 <= response.status <= 299 {
            match document_in(response.body) {
                Ok(doc) => status_in(doc),
                Err(err) => Err(err),
            }
        } else {
            Err(
                ErrorView::Internal(
                    "seal-status returned "@ + decimal(response.status as nat),
                ),
            )
        },
    }
}

/// The pairs of a secret that were asked for: all, or that of one field.
pub open spec fn selected(
    secret: Map<Seq<char>, Seq<char>>,
    field: Option<Seq<char>>,
) -> Result<Map<Seq<char>, Seq<char>>, ErrorView> {
    match field {
        None => Ok(secret),
        Some(name) => if secret.contains_key(name) {
            Ok(Map::<Seq<char>, Seq<char>>::empty().insert(name, secret[name]))
        } else {
            Err(ErrorView::NotFound)
        },
    }
}

/// What a reply to `get_asked` means.
pub open spec fn get_answer(reply: Reply, field: Option<Seq<char>>) -> Result<
    Map<Seq<char>, Seq<char>>,
    ErrorView,
> {
    match replied(reply) {
        Ok(doc) => match secret_in(doc) {
            Ok(secret) => selected(secret, field),
            Err(err) => Err(err),
        },
        Err(err) => Err(err),
    }
}

/// What a reply to `list_asked` means.
pub open spec fn list_answer(reply: Reply) -> Result<Seq<Seq<char>>, ErrorView> {
    match replied(reply) {
        Ok(doc) => names_in(doc),
        Err(err) => Err(err),
    }
}

/// What a reply to `renew_asked` means: the seconds that the token lives on.
pub open spec fn renew_answer(reply: Reply) -> Result<int, ErrorView> {
    match replied(reply) {
        Ok(doc) => Ok(lease_in(doc)),
        Err(err) => Err(err),
    }
}

/// The text of an optional text.
pub open spec fn optional(text: Option<&str>) -> Option<Seq<char>> {
    match text {
        Some(s) => Some(s@),
        None => None,
    }
}

/// Asks Vault on behalf of the store's snapshot.
#[derive(Debug)]
pub struct VaultClient {
    store: ConfigStore,
}

impl View for VaultClient {
    type V = LoadedView;

    /// The snapshot that the client works with.
    closed spec fn view(&self) -> LoadedView {
        self.store@.current
    }
}

impl VaultClient {
    /// The longest that connecting to Vault may take, in seconds.
    pub const CONNECT_TIMEOUT_SECS: u64 = 5;

    /// The longest that an exchange with Vault may take, in seconds.
    pub const TIMEOUT_SECS: u64 = 10;

    /// A client for the store's snapshot, where the HTTP client could be built.
    pub fn new(store: ConfigStore, built: Result<(), String>) -> (client: Result<
        VaultClient,
        KyttiError,
    >)
        ensures
            outcome(client) == match built {
                Ok(_) => Ok(store@.current),
                Err(cause) => Err(ErrorView::Internal("http client build: "@ + cause@)),
            },
    {
        match built {
            Ok(_) => Ok(VaultClient { store }),
            Err(cause) => Err(
                KyttiError::Internal("http client build: ".to_owned().concat(cause.as_str())),
            ),
        }
    }

    /// The request for Vault's state.
    pub fn status_request(&self) -> (request: Request)
        ensures
            request@ == status_asked(self@),
    {
        let loaded = self.store.snapshot();
        Request {
            method: Method::Get,
            url: status_url(loaded.config.vault.addr.as_str()),
            token: None,
        }
    }

    /// What the reply to the request for Vault's state means.
    pub fn status(&self, reply: Reply) -> (status: Result<VaultStatus, KyttiError>)
        ensures
            outcome(status) == status_answer(reply),
    {
        match reply {
            Err(fault) => Err(KyttiError::from(fault)),
            Ok(response) => {
                let code: u16 = response.status;
                if code < 200 || code > 299 {
                    return Err(
                        KyttiError::Internal(
                            "seal-status returned ".to_owned().concat(
                                decimal_text(code as u64).as_str(),
                            ),
                        ),
                    );
                }
                match read_document(response.body) {
                    Ok(doc) => parse_status_response(&doc),
                    Err(err) => Err(err),
                }
            },
        }
    }

    /// The request for the secret at `path`.
    pub fn get_request(&self, path: &str) -> (request: Request)
        ensures
            request@ == get_asked(self@, path@),
    {
        let loaded = self.store.snapshot();
        Request {
            method: Method::Get,
            url: read_url(loaded.config.vault.addr.as_str(), path),
            token: Some(loaded.token.clone()),
        }
    }

    /// What the reply to the request for a secret means: all of its pairs, or that
    /// of `field`.
    pub fn get(&self, reply: Reply, field: Option<&str>) -> (secret: Result<StringMap, KyttiError>)
        ensures
            outcome(secret) == get_answer(reply, optional(field)),
    {
        let doc = match drain(reply) {
            Ok(doc) => doc,
            Err(err) => return Err(err),
        };
        let mut data = match parse_get_response(&doc) {
            Ok(data) => data,
            Err(err) => return Err(err),
        };
        match field {
            Some(name) => match data.remove(name) {
                Some(value) => {
                    let mut out = StringMap::new();
                    out.insert(name.to_owned(), value);
                    Ok(out)
                },
                None => Err(KyttiError::NotFound),
            },
            None => Ok(data),
        }
    }

    /// The request that the token live on.
    pub fn renew_request(&self) -> (request: Request)
        ensures
            request@ == renew_asked(self@),
    {
        let loaded = self.store.snapshot();
        Request {
            method: Method::Post,
            url: renew_url(loaded.config.vault.addr.as_str()),
            token: Some(loaded.token.clone()),
        }
    }

    /// What the reply to the request for renewal means: the seconds that the token
    /// lives on. The token itself stays as it is.
    pub fn renew_self(&self, reply: Reply) -> (seconds: Result<u64, KyttiError>)
        ensures
            match seconds {
                Ok(n) => renew_answer(reply) == Ok::<int, ErrorView>(n as int),
                Err(err) => renew_answer(reply) == Err::<int, ErrorView>(err@),
            },
    {
        match drain(reply) {
            Ok(doc) => Ok(parse_renew_response(&doc)),
            Err(err) => Err(err),
        }
    }

    /// The request for the names in the folder at `path`.
    pub fn list_request(&self, path: &str) -> (request: Request)
        ensures
            request@ == list_asked(self@, path@),
    {
        let loaded = self.store.snapshot();
        Request {
            method: Method::List,
            url: list_url(loaded.config.vault.addr.as_str(), path),
            token: Some(loaded.token.clone()),
        }
    }

    /// What the reply to the request for the names in a folder means.
    pub fn list(&self, reply: Reply) -> (names: Result<Vec<String>, KyttiError>)
        ensures
            names_outcome(names) == list_answer(reply),
    {
        match drain(reply) {
            Ok(doc) => parse_list_response(&doc),
            Err(err) => Err(err),
        }
    }

    /// A client of its own for the same snapshot.
    pub(crate) fn copy(&self) -> (copy: VaultClient)
        ensures
            copy@ == self@,
    {
        VaultClient { store: self.store.copy() }
    }

    /// The snapshot that the client works with.
    pub fn snapshot(&self) -> (loaded: &Loaded)
        ensures
            loaded@ == self@,
    {
        self.store.snapshot()
    }
}

/// The document that came of a request, or the error in its place.
fn drain(reply: Reply) -> (doc: Result<Json, KyttiError>)
    ensures
        outcome(doc) == replied(reply),
{
    match reply {
        Ok(response) => collect_body(response),
        Err(fault) => Err(KyttiError::from(fault)),
    }
}

} // verus!
