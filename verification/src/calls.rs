//! What the calls themselves give back, for every argument and every result.
//!
//! `promises` and `laws` speak of the rules; here each call is tied to its rule, or,
//! where it is short, to what it gives in plain terms.

use vstd::prelude::*;

use crate::config::{
    with_token, ConfigError, ConfigErrorView, ConfigStore, ConfigView, KyttiConfig, Loaded,
    LoadedView, StoreView, VaultSection,
};
use crate::errors::{outcome, ErrorReply, ErrorView, KyttiError, TransportFault};
use crate::json::{compact, document, Json, JsonView};
use crate::map::StringMap;
use crate::startup::{
    asked_hosts, asked_mode, bind_address, env_or, host_policy, mode, reload_next, reload_step,
    renew_next, renew_step, HostPolicy, Mode, ReloadAction, ReloadEvent, RenewAction, RenewEvent,
};
use crate::text::{
    chars_of, decimal, decimal_text, pieces, precedes, rank, same, split, texts, trim, trim_end,
    trim_start, trimmed, trimmed_end, trimmed_start, CharClass, Rank,
};
use crate::tools::{
    finish, finished, get_first, get_reply, list_first, list_reply, names_json, pairs_json,
    status_json, status_reply, validated, validated_get, GetArgs, GetResult, Kytti, ListArgs,
    ListResult,
};
use crate::vault::{
    coerce_value, coerced, collect_body, get_answer, get_asked, list_address, list_answer, list_asked,
    list_url, map_status_code, names_in, parse_get_response, parse_list_response, parse_renew_response,
    parse_status_response, read_address, read_url, renew_address, renew_answer, renew_asked,
    renew_url, status_address, status_answer, status_asked, status_error, status_url, Method,
    Reply, Request, Response, VaultClient, VaultStatus,
};

verus! {

/// The texts that trimming and splitting give are those of the rules.
pub proof fn law_calls_on_texts(s: &str, class: CharClass, sep: char, rest: &str, parts: Vec<String>)
    ensures
        call_ensures(trim, (s, class), rest) ==> rest@ == trimmed(s@, class),
        call_ensures(trim_start, (s, class), rest) ==> rest@ == trimmed_start(s@, class),
        call_ensures(trim_end, (s, class), rest) ==> rest@ == trimmed_end(s@, class),
        call_ensures(split, (s, sep), parts) ==> texts(parts@) == pieces(s@, sep),
{
}

/// Comparing tells whether two texts are the same, and which stands first; a number
/// is written in decimal; the characters of a text are all of them.
pub proof fn law_calls_on_two_texts(
    a: &str,
    b: &str,
    yes: bool,
    r: Rank,
    n: u64,
    text: String,
    chars: Vec<char>,
)
    ensures
        call_ensures(same, (a, b), yes) ==> yes == (a@ == b@),
        call_ensures(rank, (a, b), r) ==> {
            &&& r is Before <==> precedes(a@, b@)
            &&& r is Same <==> a@ == b@
            &&& r is After <==> precedes(b@, a@)
        },
        call_ensures(decimal_text, (n,), text) ==> text@ == decimal(n as nat),
        call_ensures(chars_of, (a,), chars) ==> chars@ == a@,
{
}

/// What is read of a value, and of bytes, is what the value or the document holds.
pub proof fn law_calls_on_values(
    json: &Json,
    name: &str,
    member: Option<&Json>,
    b: Option<bool>,
    s: Option<&str>,
    n: Option<u64>,
)
    ensures
        call_ensures(Json::get, (json, name), member) ==> {
            &&& member is Some <==> json@ is Object && json@->Object_0.contains_key(name@)
            &&& member is Some ==> member->0@ == json@->Object_0[name@]
        },
        call_ensures(Json::as_bool, (json,), b) ==> {
            &&& b is Some <==> json@ is Bool
            &&& b is Some ==> json@ == JsonView::Bool(b->0)
        },
        call_ensures(Json::as_str, (json,), s) ==> {
            &&& s is Some <==> json@ is Text
            &&& s is Some ==> json@ == JsonView::Text(s->0@)
        },
        call_ensures(Json::as_u64, (json,), n) ==> {
            &&& n is Some <==> json@ is Integer && json@->Integer_0 >= 0
            &&& n is Some ==> json@ == JsonView::Integer(n->0 as int)
        },
{
}

/// Reading bytes gives the document they are, and writing a value its compact form.
pub proof fn law_calls_of_the_grammar(bytes: &[u8], parsed: Option<Json>, json: &Json, text: String)
    ensures
        call_ensures(Json::parse, (bytes,), parsed) ==> {
            &&& parsed is Some <==> document(bytes@) is Some
            &&& parsed is Some ==> document(bytes@) == Some(parsed->0@)
        },
        call_ensures(Json::to_text, (json,), text) ==> text@ == compact(json@),
{
}

/// A map gives the value of a key exactly where it has the key, and its pairs by
/// their place.
pub proof fn law_calls_on_maps(
    map: &StringMap,
    key: &str,
    value: Option<&String>,
    i: usize,
    pair: (&String, &String),
    n: usize,
)
    ensures
        call_ensures(StringMap::get, (map, key), value) ==> {
            &&& value is Some <==> map@.contains_key(key@)
            &&& value is Some ==> value->0@ == map@[key@]
        },
        call_ensures(StringMap::at, (map, i), pair) ==> map@.contains_key(pair.0@)
            && map@[pair.0@] == pair.1@,
        call_ensures(StringMap::len, (map,), n) ==> n == map@.len(),
{
}

/// What an error is told as.
pub proof fn law_calls_on_errors(
    err: &KyttiError,
    wrong: &ConfigError,
    tag: &'static str,
    message: String,
)
    ensures
        call_ensures(KyttiError::kind, (err,), tag) ==> tag@ == err@.kind(),
        call_ensures(KyttiError::to_string, (err,), message) ==> message@ == err@.message(),
        call_ensures(ConfigError::to_string, (wrong,), message) ==> message@ == wrong@.message(),
{
}

/// A configuration has what the file names, as it names it, and the default for what
/// it does not.
pub proof fn law_calls_filling_in(
    vault: VaultSection,
    bind: Option<String>,
    list: Option<Vec<String>>,
    config: KyttiConfig,
)
    requires
        call_ensures(KyttiConfig::with_defaults, (vault, bind, list), config),
    ensures
        config@.addr == vault.addr@,
        config@.token_path == vault.token_path@,
        bind is Some ==> config@.bind == bind->0@,
        bind is None ==> config@.bind == "0.0.0.0:6339"@,
        list is Some ==> config@.allowlist == texts(list->0@),
        list is None ==> config@.allowlist.len() == 0,
{
}

/// A configuration file is checked as its configuration is; what the parser or the
/// reader said is handed on.
pub proof fn law_calls_checking_files(
    path: &str,
    parsed: Result<KyttiConfig, String>,
    cause: String,
    config: Result<KyttiConfig, ConfigError>,
)
    ensures
        call_ensures(KyttiConfig::from_toml_str, (parsed,), config) || call_ensures(
            KyttiConfig::from_file,
            (path, Ok(parsed)),
            config,
        ) ==> {
            &&& parsed is Ok ==> outcome(config) == parsed->Ok_0@.checked()
            &&& parsed is Err ==> outcome(config) == Err::<ConfigView, ConfigErrorView>(
                ConfigErrorView::Parse { cause: parsed->Err_0@ },
            )
        },
        call_ensures(KyttiConfig::from_file, (path, Err(cause)), config) ==> outcome(config)
            == Err::<ConfigView, ConfigErrorView>(
            ConfigErrorView::ReadConfig { path: path@, cause: cause@ },
        ),
{
}

/// A snapshot is the configuration with its token, by the rule.
pub proof fn law_calls_loading(
    config: KyttiConfig,
    token: Result<String, String>,
    loaded: Result<Loaded, ConfigError>,
)
    requires
        call_ensures(Loaded::from_path, (config, token), loaded),
    ensures
        outcome(loaded) == with_token(config@, outcome(token)),
{
}

/// A store begins with the snapshot it is given, shows the one in force, and copies as
/// it is.
pub proof fn law_calls_on_stores(
    path: String,
    loaded: Result<Loaded, ConfigError>,
    made: Result<ConfigStore, ConfigError>,
    store: &ConfigStore,
    shown: &Loaded,
    at: &str,
    copy: ConfigStore,
)
    ensures
        call_ensures(ConfigStore::load_from, (path, loaded), made) ==> {
            &&& loaded is Ok ==> outcome(made) == Ok::<StoreView, ConfigErrorView>(
                StoreView { current: loaded->Ok_0@, path: path@ },
            )
            &&& loaded is Err ==> outcome(made) == Err::<StoreView, ConfigErrorView>(
                loaded->Err_0@,
            )
        },
        call_ensures(ConfigStore::snapshot, (store,), shown) ==> shown@ == store@.current,
        call_ensures(ConfigStore::path, (store,), at) ==> at@ == store@.path,
        call_ensures(ConfigStore::copy, (store,), copy) ==> copy@ == store@,
{
}

/// The addresses are those of the rules.
pub proof fn law_calls_for_addresses(addr: &str, path: &str, url: String)
    ensures
        call_ensures(read_url, (addr, path), url) ==> url@ == read_address(addr@, path@),
        call_ensures(list_url, (addr, path), url) ==> url@ == list_address(addr@, path@),
        call_ensures(status_url, (addr,), url) ==> url@ == status_address(addr@),
        call_ensures(renew_url, (addr,), url) ==> url@ == renew_address(addr@),
        read_address(addr@, path@) == trimmed_end(addr@, CharClass::Slash) + "/v1/secret/data/"@
            + trimmed(path@, CharClass::Slash),
        list_address(addr@, path@) == trimmed_end(addr@, CharClass::Slash)
            + "/v1/secret/metadata/"@ + trimmed(path@, CharClass::Slash),
        status_address(addr@) == trimmed_end(addr@, CharClass::Slash) + "/v1/sys/seal-status"@,
        renew_address(addr@) == trimmed_end(addr@, CharClass::Slash)
            + "/v1/auth/token/renew-self"@,
{
}

/// What a status means, and what a reply carries.
pub proof fn law_calls_on_responses(
    status: u16,
    body: Option<&Json>,
    err: KyttiError,
    response: Response,
    doc: Result<Json, KyttiError>,
)
    ensures
        call_ensures(map_status_code, (status, body), err) ==> err@ == status_error(
            status,
            match body {
                Some(json) => Some(json@),
                None => None,
            },
        ),
        call_ensures(collect_body, (response,), doc) && 200 <= response.status <= 299 ==> {
            &&& doc is Ok <==> response.body is Ok && document(response.body->Ok_0@) is Some
            &&& doc is Ok ==> document(response.body->Ok_0@) == Some(doc->Ok_0@)
            &&& doc is Err && response.body is Err ==> doc->Err_0@ == response.body->Err_0.error()
            &&& doc is Err && response.body is Ok ==> doc->Err_0@ == ErrorView::Internal(
                "vault response malformed"@,
            )
        },
        call_ensures(collect_body, (response,), doc) && !(200 <= response.status <= 299) ==> doc
            is Err && doc->Err_0@ == status_error(
            response.status,
            if response.body is Ok {
                document(response.body->Ok_0@)
            } else {
                None
            },
        ),
{
}

/// What a document tells of a state: the two flags it has, its version and its
/// cluster's name.
pub proof fn law_calls_reading_a_state(
    body: &Json,
    members: Map<Seq<char>, JsonView>,
    status: Result<VaultStatus, KyttiError>,
)
    requires
        call_ensures(parse_status_response, (body,), status),
        body@ == JsonView::Object(members),
    ensures
        status is Ok <==> {
            &&& members.contains_key("sealed"@) && members["sealed"@] is Bool
            &&& members.contains_key("initialized"@) && members["initialized"@] is Bool
        },
        status matches Ok(found) ==> {
            &&& members["sealed"@] == JsonView::Bool(found.sealed)
            &&& members["initialized"@] == JsonView::Bool(found.initialized)
            &&& found.version@ == if members.contains_key("version"@)
                && members["version"@] is Text {
                members["version"@]->Text_0
            } else {
                Seq::empty()
            }
            &&& found.cluster_name is Some <==> members.contains_key("cluster_name"@)
                && members["cluster_name"@] is Text && members["cluster_name"@]->Text_0.len() > 0
            &&& found.cluster_name is Some ==> members["cluster_name"@] == JsonView::Text(
                found.cluster_name->0@,
            )
        },
        status matches Err(err) ==> err@ == ErrorView::Internal("vault response malformed"@),
{
    let view = outcome(status);
    if status is Ok {
        assert(view->Ok_0 == status->Ok_0@);
    }
}

/// What a document tells of a secret, a folder and a renewal, where the members that
/// should be there are.
pub proof fn law_calls_reading_documents(
    body: &Json,
    outer: Map<Seq<char>, JsonView>,
    inner: Map<Seq<char>, JsonView>,
    key: Seq<char>,
    secret: Result<StringMap, KyttiError>,
    items: Seq<JsonView>,
    names: Result<Vec<String>, KyttiError>,
    seconds: u64,
)
    requires
        body@ == JsonView::Object(outer),
    ensures
        call_ensures(parse_get_response, (body,), secret) && outer.contains_key("data"@)
            && outer["data"@] is Object && outer["data"@]->Object_0.contains_key("data"@)
            && outer["data"@]->Object_0["data"@] == JsonView::Object(inner) ==> {
            &&& secret is Ok
            &&& secret->Ok_0@.dom() == inner.dom()
            &&& inner.contains_key(key) && inner[key] is Text ==> secret->Ok_0@[key]
                == inner[key]->Text_0
        },
        call_ensures(parse_list_response, (body,), names) && outer.contains_key("data"@)
            && outer["data"@] is Object && outer["data"@]->Object_0.contains_key("keys"@)
            && outer["data"@]->Object_0["keys"@] == JsonView::Array(items) && (forall|i: int|
            0 <= i < items.len() ==> (#[trigger] items[i]) is Text) ==> {
            &&& names is Ok
            &&& names->Ok_0@.len() == items.len()
            &&& forall|i: int|
                0 <= i < items.len() ==> #[trigger] items[i] == JsonView::Text(
                    names->Ok_0@[i]@,
                )
        },
        call_ensures(parse_renew_response, (body,), seconds) && outer.contains_key("auth"@)
            && outer["auth"@] is Object && outer["auth"@]->Object_0.contains_key(
            "lease_duration"@,
        ) && outer["auth"@]->Object_0["lease_duration"@] is Integer
            && outer["auth"@]->Object_0["lease_duration"@]->Integer_0 >= 0 ==> seconds
            == outer["auth"@]->Object_0["lease_duration"@]->Integer_0,
{
    if secret is Ok && outer.contains_key("data"@) && outer["data"@] is Object
        && outer["data"@]->Object_0.contains_key("data"@)
        && outer["data"@]->Object_0["data"@] == JsonView::Object(inner) {
        assert(inner.map_values(|v: JsonView| coerced(v)).dom() =~= inner.dom());
    }
    if call_ensures(parse_list_response, (body,), names) && outer.contains_key("data"@)
        && outer["data"@] is Object && outer["data"@]->Object_0.contains_key("keys"@)
        && outer["data"@]->Object_0["keys"@] == JsonView::Array(items) && (forall|i: int|
        0 <= i < items.len() ==> (#[trigger] items[i]) is Text) {
        assert(names_in(body@) is Ok);
        assert(texts(names->Ok_0@).len() == items.len());
        assert forall|i: int| 0 <= i < items.len() implies #[trigger] items[i] == JsonView::Text(
            names->Ok_0@[i]@,
        ) by {
            assert(texts(names->Ok_0@)[i] == names->Ok_0@[i]@);
        }
    }
}

/// A text of a secret is handed on character for character.
pub proof fn law_calls_writing_values(value: &Json, text: String)
    requires
        call_ensures(coerce_value, (value,), text),
    ensures
        value@ matches JsonView::Text(s) ==> text@ == s,
        value@ is Null ==> text@ == "null"@,
        value@ matches JsonView::Float(s) ==> text@ == s,
        value@ is Array || value@ is Object ==> text@ == compact(value@),
{
}

/// A client is for the snapshot of its store, and asks for what the rules say.
pub proof fn law_calls_of_a_client(
    store: ConfigStore,
    built: Result<(), String>,
    made: Result<VaultClient, KyttiError>,
    client: &VaultClient,
    path: &str,
    request: Request,
    shown: &Loaded,
)
    ensures
        call_ensures(VaultClient::new, (store, built), made) ==> {
            &&& built is Ok ==> outcome(made) == Ok::<LoadedView, ErrorView>(store@.current)
            &&& built is Err ==> outcome(made) == Err::<LoadedView, ErrorView>(
                ErrorView::Internal("http client build: "@ + built->Err_0@),
            )
        },
        call_ensures(VaultClient::status_request, (client,), request) ==> request@ == status_asked(
            client@,
        ),
        call_ensures(VaultClient::get_request, (client, path), request) ==> request@ == get_asked(
            client@,
            path@,
        ),
        call_ensures(VaultClient::list_request, (client, path), request) ==> request@
            == list_asked(client@, path@),
        call_ensures(VaultClient::renew_request, (client,), request) ==> request@ == renew_asked(
            client@,
        ),
        call_ensures(VaultClient::snapshot, (client,), shown) ==> shown@ == client@,
{
}

/// A client reads replies by the rules.
pub proof fn law_calls_reading_replies(
    client: &VaultClient,
    reply: Reply,
    field: Option<&str>,
    status: Result<VaultStatus, KyttiError>,
    secret: Result<StringMap, KyttiError>,
    names: Result<Vec<String>, KyttiError>,
    seconds: Result<u64, KyttiError>,
)
    ensures
        call_ensures(VaultClient::status, (client, reply), status) ==> outcome(status)
            == status_answer(reply),
        call_ensures(VaultClient::get, (client, reply, field), secret) ==> outcome(secret)
            == get_answer(
            reply,
            match field {
                Some(name) => Some(name@),
                None => None,
            },
        ),
        call_ensures(VaultClient::list, (client, reply), names) && names is Ok ==> list_answer(reply)
            == Ok::<Seq<Seq<char>>, ErrorView>(texts(names->Ok_0@)),
        call_ensures(VaultClient::list, (client, reply), names) && names is Err ==> list_answer(
            reply,
        ) == Err::<Seq<Seq<char>>, ErrorView>(names->Err_0@),
        call_ensures(VaultClient::renew_self, (client, reply), seconds) && seconds is Ok
            ==> renew_answer(reply) == Ok::<int, ErrorView>(seconds->Ok_0 as int),
        call_ensures(VaultClient::renew_self, (client, reply), seconds) && seconds is Err
            ==> renew_answer(reply) == Err::<int, ErrorView>(seconds->Err_0@),
{
}

/// A gateway is for the snapshot of its store, and validates by the rules.
pub proof fn law_calls_of_a_gateway(
    store: ConfigStore,
    built: Result<(), String>,
    made: Result<Kytti, KyttiError>,
    kytti: &Kytti,
    path: &str,
    valid: Result<String, KyttiError>,
)
    ensures
        call_ensures(Kytti::new, (store, built), made) ==> {
            &&& built is Ok ==> outcome(made) == Ok::<LoadedView, ErrorView>(store@.current)
            &&& built is Err ==> outcome(made) == Err::<LoadedView, ErrorView>(
                ErrorView::Internal("http client build: "@ + built->Err_0@),
            )
        },
        call_ensures(Kytti::validate_path, (kytti, path), valid) ==> outcome(valid) == validated(
            kytti@.config.allowlist,
            path@,
        ),
        call_ensures(Kytti::validate_get_path, (kytti, path), valid) ==> outcome(valid)
            == validated_get(kytti@.config.allowlist, path@),
{
}

/// The tools ask and answer by the rules.
pub proof fn law_calls_of_the_tools(
    kytti: &Kytti,
    get: &GetArgs,
    list: &ListArgs,
    reply: Reply,
    probe: Request,
    request: Result<Request, ErrorReply>,
    result: Result<String, ErrorReply>,
)
    ensures
        call_ensures(Kytti::vault_status_request, (kytti,), probe) ==> probe@ == status_asked(
            kytti@,
        ),
        call_ensures(Kytti::vault_get_request, (kytti, get), request) ==> outcome(request)
            == get_first(kytti@, get.path@),
        call_ensures(Kytti::vault_list_request, (kytti, list), request) ==> outcome(request)
            == list_first(kytti@, list.path@),
        call_ensures(Kytti::vault_status, (kytti, reply), result) ==> outcome(result)
            == status_reply(reply),
        call_ensures(Kytti::vault_get, (kytti, get, reply), result) ==> outcome(result)
            == get_reply(
            kytti@.config.allowlist,
            get.path@,
            match get.field {
                Some(name) => Some(name@),
                None => None,
            },
            reply,
        ),
        call_ensures(Kytti::vault_list, (kytti, list, reply), result) ==> outcome(result)
            == list_reply(kytti@.config.allowlist, list.path@, reply),
{
}

/// What is found is shown by the rules: a value alone as it is, else an object of what
/// is there.
pub proof fn law_calls_showing(
    status: &VaultStatus,
    found: &GetResult,
    list: &ListResult,
    json: Json,
    result: Result<Json, KyttiError>,
    reply: Result<String, ErrorReply>,
)
    ensures
        call_ensures(VaultStatus::to_json, (status,), json) ==> json@ == status_json(status@),
        call_ensures(ListResult::to_json, (list,), json) ==> json@ == names_json(
            texts(list.keys@),
        ),
        call_ensures(GetResult::to_json, (found,), json) ==> {
            &&& found.value is Some && found.data is None ==> json@ == JsonView::Text(
                found.value->0@,
            )
            &&& found.value is None && found.data is Some ==> json@ == JsonView::Object(
                map!["data"@ => pairs_json(found.data->0@)],
            )
            &&& found.value is Some && found.data is Some ==> json@ == JsonView::Object(
                map![
                    "value"@ => JsonView::Text(found.value->0@),
                    "data"@ => pairs_json(found.data->0@)
                ],
            )
            &&& found.value is None && found.data is None ==> json@ == JsonView::Object(
                Map::empty(),
            )
        },
        call_ensures(finish, (result,), reply) ==> outcome(reply) == finished(outcome(result)),
{
}

/// What the program decides when it starts: the environment's setting wins, the
/// arguments and the hosts go by the rules.
pub proof fn law_calls_at_the_start(
    value: Option<String>,
    default: &str,
    setting: String,
    loaded: &Loaded,
    args: &Vec<String>,
    asked: Mode,
    hosts: Option<&str>,
    policy: HostPolicy,
)
    ensures
        call_ensures(env_or, (value, default), setting) && value is Some ==> setting@
            == value->0@,
        call_ensures(env_or, (value, default), setting) && value is None ==> setting@ == default@,
        call_ensures(bind_address, (value, loaded), setting) && value is Some ==> setting@
            == value->0@,
        call_ensures(bind_address, (value, loaded), setting) && value is None ==> setting@
            == loaded.config.server.bind@,
        call_ensures(mode, (args,), asked) ==> asked == asked_mode(texts(args@)),
        call_ensures(host_policy, (hosts,), policy) && hosts is Some ==> policy@ == asked_hosts(
            Some(hosts->0@),
        ),
        call_ensures(host_policy, (hosts,), policy) && hosts is None ==> policy is Default,
{
}

/// The background tasks take the steps of the rules, and the verbs are spelled as HTTP
/// has them.
pub proof fn law_calls_in_the_background(
    renew: RenewEvent,
    then_renew: RenewAction,
    reload: ReloadEvent,
    then_reload: ReloadAction,
    method: &Method,
    verb: &'static str,
)
    ensures
        call_ensures(renew_next, (renew,), then_renew) ==> then_renew == renew_step(renew),
        call_ensures(reload_next, (reload,), then_reload) ==> then_reload == reload_step(reload),
        call_ensures(Method::verb, (method,), verb) ==> {
            &&& *method is Get ==> verb@ == "GET"@
            &&& *method is List ==> verb@ == "LIST"@
            &&& *method is Post ==> verb@ == "POST"@
        },
{
}

/// An error becomes what the caller is told of it, and a fault the error it stands for.
pub proof fn law_calls_converting(
    err: KyttiError,
    reply: ErrorReply,
    fault: TransportFault,
)
    ensures
        call_ensures(<ErrorReply as From<KyttiError>>::from, (err,), reply) ==> reply@
            == err@.reply(),
        call_ensures(<KyttiError as From<TransportFault>>::from, (fault,), err) ==> err@
            == fault.error(),
{
}

/// A copy holds what it is a copy of.
pub proof fn law_calls_copying(
    config: &KyttiConfig,
    config_copy: KyttiConfig,
    loaded: &Loaded,
    loaded_copy: Loaded,
    status: &VaultStatus,
    status_copy: VaultStatus,
    kytti: &Kytti,
    kytti_copy: Kytti,
)
    ensures
        call_ensures(<KyttiConfig as Clone>::clone, (config,), config_copy) ==> config_copy@
            == config@,
        call_ensures(<Loaded as Clone>::clone, (loaded,), loaded_copy) ==> loaded_copy@ == loaded@,
        call_ensures(<VaultStatus as Clone>::clone, (status,), status_copy) ==> status_copy@
            == status@,
        call_ensures(<Kytti as Clone>::clone, (kytti,), kytti_copy) ==> kytti_copy@ == kytti@,
{
}

/// A reload puts the new snapshot in force, whatever it is, or hands on the failure and
/// leaves the store as it was; the path stays.
pub proof fn law_calls_reloading(
    store: &mut ConfigStore,
    fresh: Result<Loaded, ConfigError>,
    done: Result<(), ConfigError>,
)
    requires
        call_ensures(ConfigStore::reload, (store, fresh), done),
    ensures
        fresh is Ok ==> done is Ok && final(store)@.current == fresh->Ok_0@,
        fresh is Err ==> done is Err && done->Err_0@ == fresh->Err_0@ && final(store)@
            == old(store)@,
        final(store)@.path == old(store)@.path,
{
}

/// Putting a pair into a map, and taking one out, changes the map at that key alone.
pub proof fn law_calls_changing_maps(
    map: &mut StringMap,
    key: String,
    value: String,
    name: &str,
    taken: Option<String>,
)
    ensures
        call_ensures(StringMap::insert, (map, key, value), ()) ==> final(map)@ == old(map)@.insert(
            key@,
            value@,
        ),
        call_ensures(StringMap::remove, (map, name), taken) ==> {
            &&& final(map)@ == old(map)@.remove(name@)
            &&& taken is Some <==> old(map)@.contains_key(name@)
            &&& taken is Some ==> taken->0@ == old(map)@[name@]
        },
{
}

} // verus!
