//! What each operation gives, said of its inputs and its results alone.
//!
//! Where `laws` relates the rules to one another, each law here says in full what one
//! of them comes to: which replies of Vault have an answer and what it holds, which
//! paths pass, which texts are shown.

use vstd::prelude::*;

use crate::config::{
    reloaded, with_token, ConfigError, ConfigErrorView, ConfigView, KyttiConfig, Loaded,
    LoadedView, StoreView,
};
use crate::errors::{
    outcome, ErrorCategory, ErrorReply, ErrorReplyView, ErrorView, KyttiError, TransportFault,
};
use crate::json::{
    bool_in, compact, document, lemma_items, lemma_last_counts, lemma_member_is_there, natural_in,
    option_view, signed_decimal, text_in, FloatText, Json, JsonView,
};
use crate::map::ascending;
use crate::startup::{
    asked_hosts, asked_mode, bare, listed_hosts, reload_step, renew_step, HostPolicy, HostPolicyView,
    ReloadAction, ReloadEvent, RenewAction, RenewEvent,
};
use crate::text::{
    decimal, lemma_end_split, lemma_no_empty_piece, lemma_one_piece, lemma_pieces_concat,
    lemma_pieces_trimmed, lemma_start_split, lemma_trimmed, lemma_trimmed_end,
    lemma_trimmed_start, pieces, precedes, texts, trimmed, trimmed_end, trimmed_start, CharClass,
};
use crate::tools::{
    clean, covers, doubled, field_view, finished, get_first, get_reply, list_first, list_reply,
    nameless, names_json, pairs_json, secret_json, slashes_at, status_json, status_reply,
    validated, validated_get,
};
use crate::vault::{
    get_answer, get_asked, list_answer, list_asked, names_outcome, optional, renew_answer,
    renew_asked, status_answer, status_asked, status_error, Method, Reply, Request,
    RequestView, Response, StatusView, VaultStatus,
};

verus! {

/// Trimming takes characters of the class from the ends, all of them, and nothing
/// else: the law gives what was taken in front and behind.
pub proof fn law_trimming(s: Seq<char>, class: CharClass) -> (taken: (Seq<char>, Seq<char>))
    ensures
        s == taken.0 + trimmed(s, class) + taken.1,
        forall|i: int| 0 <= i < taken.0.len() ==> class.has(#[trigger] taken.0[i]),
        forall|i: int| 0 <= i < taken.1.len() ==> class.has(#[trigger] taken.1[i]),
        trimmed(s, class).len() > 0 ==> {
            &&& !class.has(trimmed(s, class)[0])
            &&& !class.has(trimmed(s, class)[trimmed(s, class).len() - 1])
        },
{
    let front = lemma_start_split(s, class);
    let back = lemma_end_split(trimmed_start(s, class), class);
    lemma_trimmed(s, class);
    assert(s =~= front + trimmed(s, class) + back);
    (front, back)
}

/// Trimming at the end takes characters of the class from there, all of them, and
/// nothing else: the law gives what was taken.
pub proof fn law_trimming_at_the_end(s: Seq<char>, class: CharClass) -> (taken: Seq<char>)
    ensures
        s == trimmed_end(s, class) + taken,
        forall|i: int| 0 <= i < taken.len() ==> class.has(#[trigger] taken[i]),
        trimmed_end(s, class).len() > 0 ==> !class.has(
            trimmed_end(s, class)[trimmed_end(s, class).len() - 1],
        ),
{
    lemma_trimmed_end(s, class);
    lemma_end_split(s, class)
}

/// Trimming at the start takes characters of the class from there, all of them, and
/// nothing else: the law gives what was taken.
pub proof fn law_trimming_at_the_start(s: Seq<char>, class: CharClass) -> (taken: Seq<char>)
    ensures
        s == taken + trimmed_start(s, class),
        forall|i: int| 0 <= i < taken.len() ==> class.has(#[trigger] taken[i]),
        trimmed_start(s, class).len() > 0 ==> !class.has(trimmed_start(s, class)[0]),
{
    lemma_trimmed_start(s, class);
    lemma_start_split(s, class)
}

/// A text without the separator is its only piece; with one, the pieces are those of
/// what stands before it and then those of what stands behind it.
pub proof fn law_pieces(a: Seq<char>, b: Seq<char>, sep: char)
    ensures
        pieces(a + seq![sep] + b, sep) == pieces(a, sep) + pieces(b, sep),
        (forall|i: int| 0 <= i < a.len() ==> #[trigger] a[i] != sep) ==> pieces(a, sep) == seq![a],
{
    assert(a + seq![sep] + b =~= a.push(sep) + b);
    lemma_pieces_concat(a, b, sep);
    if forall|i: int| 0 <= i < a.len() ==> #[trigger] a[i] != sep {
        lemma_one_piece(a, sep);
    }
}

/// A number is written digit by digit: one below ten as its digit, a greater one as
/// the number of its tens and then the digit of its ones.
pub proof fn law_decimal(tens: nat, ones: nat)
    requires
        ones < 10,
    ensures
        decimal(ones) == seq![(48 + ones) as char],
        tens > 0 ==> decimal(10 * tens + ones) == decimal(tens) + seq![(48 + ones) as char],
{
    if tens > 0 {
        assert((10 * tens + ones) / 10 == tens);
        assert((10 * tens + ones) % 10 == ones);
        assert(decimal(10 * tens + ones) =~= decimal(tens) + seq![(48 + ones) as char]);
    }
}

/// A negative number is written with a minus sign before what it is without one.
pub proof fn law_signed_decimal(n: nat)
    ensures
        signed_decimal(n as int) == decimal(n),
        n > 0 ==> signed_decimal(-n) == seq!['-'] + decimal(n),
{
}

/// Two texts stand as their first difference says: by code point, or the shorter one
/// first where it is the beginning of the other.
pub proof fn law_order_of_texts(a: Seq<char>, b: Seq<char>, k: int)
    requires
        0 <= k <= a.len(),
        k <= b.len(),
        forall|i: int| 0 <= i < k ==> a[i] == #[trigger] b[i],
    ensures
        k == a.len() ==> precedes(a, b) == (k < b.len()),
        k == b.len() ==> !precedes(a, b),
        k < a.len() && k < b.len() && a[k] != b[k] ==> precedes(a, b) == ((a[k] as int) < (
        b[k] as int)),
    decreases k,
{
    if k > 0 {
        let x = a.drop_first();
        let y = b.drop_first();
        assert(a[0] == b[0]);
        assert forall|i: int| 0 <= i < k - 1 implies x[i] == #[trigger] y[i] by {
            assert(a[i + 1] == b[i + 1]);
        }
        law_order_of_texts(x, y, k - 1);
    }
}

/// Keys ascend exactly where each stands before every later one.
pub proof fn law_ascending_keys(keys: Seq<Seq<char>>, i: int, j: int)
    requires
        0 <= i < j < keys.len(),
    ensures
        ascending(keys) ==> precedes(keys[i], keys[j]),
        !precedes(keys[i], keys[j]) ==> !ascending(keys),
{
}

/// The texts of a list are those of its strings, one for one.
pub proof fn law_texts(list: Seq<String>, i: int)
    ensures
        texts(list).len() == list.len(),
        0 <= i < list.len() ==> texts(list)[i] == list[i]@,
{
}

/// A value is modelled by what it is: scalars as they are, an array item by item.
pub proof fn law_models_of_values(
    b: bool,
    u: u64,
    n: i64,
    f: FloatText,
    s: String,
    items: Vec<Json>,
    i: int,
)
    ensures
        Json::Null@ == JsonView::Null,
        Json::Bool(b)@ == JsonView::Bool(b),
        Json::Unsigned(u)@ == JsonView::Integer(u as int),
        Json::Signed(n)@ == JsonView::Integer(n as int),
        Json::Float(f)@ == JsonView::Float(f@),
        Json::String(s)@ == JsonView::Text(s@),
        Json::Array(items)@ matches JsonView::Array(held) && held.len() == items@.len(),
        0 <= i < items@.len() ==> Json::Array(items)@->Array_0[i] == items@[i]@,
{
    lemma_items(items@);
    if 0 <= i < items@.len() {
        assert(Json::Array(items)@->Array_0[i] == items@[i]@);
    }
}

/// An object has a member of each name that its list has, the last one of that name,
/// and no other.
pub proof fn law_models_of_objects(members: Vec<(String, Json)>, at: int, name: Seq<char>)
    ensures
        Json::Object(members)@ is Object,
        0 <= at < members@.len() && (forall|j: int|
            at < j < members@.len() ==> (#[trigger] members@[j]).0@ != members@[at].0@)
            ==> Json::Object(members)@->Object_0.contains_key(members@[at].0@) && Json::Object(
            members,
        )@->Object_0[members@[at].0@] == members@[at].1@,
        (forall|j: int| 0 <= j < members@.len() ==> (#[trigger] members@[j]).0@ != name)
            ==> !Json::Object(members)@->Object_0.contains_key(name),
{
    if 0 <= at < members@.len() && (forall|j: int|
        at < j < members@.len() ==> (#[trigger] members@[j]).0@ != members@[at].0@) {
        lemma_last_counts(members@, at);
    }
    if Json::Object(members)@->Object_0.contains_key(name) {
        lemma_member_is_there(members@, name);
    }
}

/// What is read of a value: the member of an object, a truth value, a text, a natural
/// number, each exactly where it is one.
pub proof fn law_reading_values(value: JsonView, members: Map<Seq<char>, JsonView>, name: Seq<char>)
    ensures
        JsonView::Object(members).member(name) == if members.contains_key(name) {
            Some(members[name])
        } else {
            None
        },
        !(value is Object) ==> value.member(name) is None,
        bool_in(Some(value)) == if value is Bool {
            Some(value->Bool_0)
        } else {
            None
        },
        text_in(Some(value)) == if value is Text {
            Some(value->Text_0)
        } else {
            None
        },
        natural_in(Some(value)) == if value is Integer && value->Integer_0 >= 0 {
            Some(value->Integer_0)
        } else {
            None
        },
{
}

/// The models of the library's values hold all that the values hold.
pub proof fn law_models_leave_nothing_out(
    status: VaultStatus,
    request: Request,
    config: KyttiConfig,
    loaded: Loaded,
    reply: ErrorReply,
)
    ensures
        status@.sealed == status.sealed,
        status@.initialized == status.initialized,
        status@.version == status.version@,
        status@.cluster_name is Some <==> status.cluster_name is Some,
        status.cluster_name is Some ==> status@.cluster_name->0 == status.cluster_name->0@,
        request@.method == request.method,
        request@.url == request.url@,
        request@.token is Some <==> request.token is Some,
        request.token is Some ==> request@.token->0 == request.token->0@,
        config@.addr == config.vault.addr@,
        config@.token_path == config.vault.token_path@,
        config@.bind == config.server.bind@,
        config@.allowlist == texts(config.security.path_allowlist@),
        loaded@.config == config@ <== loaded.config == config,
        loaded@.token == loaded.token@,
        reply@.category == reply.category,
        reply@.message == reply.message@,
        reply@.data == reply.data@,
{
}

/// The models of the library's errors and results hold all that these hold.
pub proof fn law_models_of_errors(will_retry: bool, detail: String, path: String, hosts: Vec<String>)
    ensures
        KyttiError::NotFound@ == ErrorView::NotFound,
        KyttiError::Forbidden@ == ErrorView::Forbidden,
        KyttiError::BadPath@ == ErrorView::BadPath,
        (KyttiError::Sealed { will_retry })@ == (ErrorView::Sealed { will_retry }),
        KyttiError::Network(detail)@ == ErrorView::Network(detail@),
        KyttiError::Internal(detail)@ == ErrorView::Internal(detail@),
        ConfigError::EmptyAddr@ == ConfigErrorView::EmptyAddr,
        ConfigError::EmptyTokenPath@ == ConfigErrorView::EmptyTokenPath,
        (ConfigError::EmptyToken { path })@ == (ConfigErrorView::EmptyToken { path: path@ }),
        (ConfigError::Parse { cause: detail })@ == (ConfigErrorView::Parse { cause: detail@ }),
        (ConfigError::ReadConfig { path, cause: detail })@ == (ConfigErrorView::ReadConfig {
            path: path@,
            cause: detail@,
        }),
        (ConfigError::ReadToken { path, cause: detail })@ == (ConfigErrorView::ReadToken {
            path: path@,
            cause: detail@,
        }),
        HostPolicy::Default@ == HostPolicyView::Default,
        HostPolicy::Any@ == HostPolicyView::Any,
        HostPolicy::Only(hosts)@ == HostPolicyView::Only(texts(hosts@)),
{
}

/// The model of a result is that of its value or that of its error, and that of an
/// optional value is there exactly where the value is.
pub proof fn law_models_of_results(
    name: String,
    err: KyttiError,
    names: Vec<String>,
    json: &Json,
    text: &str,
)
    ensures
        outcome(Ok::<String, KyttiError>(name)) == Ok::<Seq<char>, ErrorView>(name@),
        outcome(Err::<String, KyttiError>(err)) == Err::<Seq<char>, ErrorView>(err@),
        names_outcome(Ok(names)) == Ok::<Seq<Seq<char>>, ErrorView>(texts(names@)),
        names_outcome(Err(err)) == Err::<Seq<Seq<char>>, ErrorView>(err@),
        option_view(Some(json)) == Some(json@),
        option_view(None) is None,
        optional(Some(text)) == Some(text@),
        optional(None) is None,
        field_view(Some(name)) == Some(name@),
        field_view(None) is None,
{
}

/// What the caller is told of an error, whatever its detail holds.
pub proof fn law_what_errors_tell(will_retry: bool, detail: Seq<char>)
    ensures
        ErrorView::NotFound.reply() == (ErrorReplyView {
            category: ErrorCategory::ResourceNotFound,
            message: "vault returned NotFound"@,
            data: JsonView::Object(map!["kind"@ => JsonView::Text("NotFound"@)]),
        }),
        ErrorView::Forbidden.reply() == (ErrorReplyView {
            category: ErrorCategory::InvalidRequest,
            message: "vault returned Forbidden — check token policy"@,
            data: JsonView::Object(map!["kind"@ => JsonView::Text("Forbidden"@)]),
        }),
        ErrorView::BadPath.reply() == (ErrorReplyView {
            category: ErrorCategory::InvalidParams,
            message: "path not allowed by policy"@,
            data: JsonView::Object(map!["kind"@ => JsonView::Text("BadPath"@)]),
        }),
        (ErrorView::Sealed { will_retry }).reply() == (ErrorReplyView {
            category: ErrorCategory::InternalError,
            message: "vault is sealed"@,
            data: JsonView::Object(
                map![
                    "kind"@ => JsonView::Text("Sealed"@),
                    "will_retry"@ => JsonView::Bool(will_retry)
                ],
            ),
        }),
        ErrorView::Network(detail).reply() == (ErrorReplyView {
            category: ErrorCategory::InternalError,
            message: "vault network error: "@ + detail,
            data: JsonView::Object(map!["kind"@ => JsonView::Text("Network"@)]),
        }),
        ErrorView::Internal(detail).reply() == (ErrorReplyView {
            category: ErrorCategory::InternalError,
            message: "vault internal error: "@ + detail,
            data: JsonView::Object(map!["kind"@ => JsonView::Text("Internal"@)]),
        }),
{
}

/// What a fault of the transport is told as: of its properties the first in this
/// order decides, and the others do not matter.
pub proof fn law_what_faults_tell(fault: TransportFault)
    ensures
        fault.timeout ==> fault.error() == ErrorView::Network("timeout"@),
        !fault.timeout && fault.connect ==> fault.error() == ErrorView::Network("connect failed"@),
        !fault.timeout && !fault.connect && fault.decode ==> fault.error() == ErrorView::Internal(
            "vault response malformed"@,
        ),
        !fault.timeout && !fault.connect && !fault.decode && fault.request ==> fault.error()
            == ErrorView::Network("request failed"@),
        !fault.timeout && !fault.connect && !fault.decode && !fault.request ==> fault.error()
            == ErrorView::Network("transport error"@),
{
}

/// Whether a reply came with a status of success and `doc` as its document.
pub open spec fn carries(reply: Reply, doc: JsonView) -> bool {
    &&& reply is Ok
    &&& 200 <= reply->Ok_0.status <= 299
    &&& reply->Ok_0.body is Ok
    &&& document(reply->Ok_0.body->Ok_0@) == Some(doc)
}

/// What stands in a document under `outer` and, in that, under `name`.
pub open spec fn under(doc: JsonView, outer: Seq<char>, name: Seq<char>) -> Option<JsonView> {
    if doc is Object && doc->Object_0.contains_key(outer) && doc->Object_0[outer] is Object
        && doc->Object_0[outer]->Object_0.contains_key(name) {
        Some(doc->Object_0[outer]->Object_0[name])
    } else {
        None
    }
}

/// Vault's state is told as the document's members say, whatever other members it
/// has: it is told exactly where both flags are truth values, and then with these
/// flags, the version's text, and the cluster's name where it is a text that is not
/// empty.
pub proof fn law_the_state_is_told(reply: Reply, members: Map<Seq<char>, JsonView>)
    requires
        carries(reply, JsonView::Object(members)),
    ensures
        status_answer(reply) is Ok <==> {
            &&& members.contains_key("sealed"@) && members["sealed"@] is Bool
            &&& members.contains_key("initialized"@) && members["initialized"@] is Bool
        },
        status_answer(reply) matches Ok(status) ==> {
            &&& members["sealed"@] == JsonView::Bool(status.sealed)
            &&& members["initialized"@] == JsonView::Bool(status.initialized)
            &&& status.version == if members.contains_key("version"@)
                && members["version"@] is Text {
                members["version"@]->Text_0
            } else {
                Seq::empty()
            }
            &&& status.cluster_name == if members.contains_key("cluster_name"@)
                && members["cluster_name"@] is Text && members["cluster_name"@]->Text_0.len() > 0 {
                Some(members["cluster_name"@]->Text_0)
            } else {
                None
            }
        },
        status_answer(reply) matches Err(err) ==> err == ErrorView::Internal(
            "vault response malformed"@,
        ),
{
}

/// Where the probe does not give an object, or does not succeed, the error says so.
pub proof fn law_the_state_is_not_told(reply: Reply, doc: JsonView)
    ensures
        carries(reply, doc) && !(doc is Object) ==> status_answer(reply) == Err::<
            StatusView,
            ErrorView,
        >(ErrorView::Internal("vault response malformed"@)),
        reply is Ok && !(200 <= reply->Ok_0.status <= 299) ==> status_answer(reply) == Err::<
            StatusView,
            ErrorView,
        >(
            ErrorView::Internal(
                "seal-status returned "@ + decimal(reply->Ok_0.status as nat),
            ),
        ),
{
}

/// What the caller of `vault_status` gets where the state is told: the compact form of
/// an object, which the law gives, with the state's members and no others.
pub proof fn law_the_state_is_shown(reply: Reply) -> (shown: Map<Seq<char>, JsonView>)
    requires
        status_answer(reply) is Ok,
    ensures
        status_reply(reply) == Ok::<Seq<char>, ErrorReplyView>(compact(JsonView::Object(shown))),
        shown.contains_key("sealed"@) && shown["sealed"@] == JsonView::Bool(
            status_answer(reply)->Ok_0.sealed,
        ),
        shown.contains_key("initialized"@) && shown["initialized"@] == JsonView::Bool(
            status_answer(reply)->Ok_0.initialized,
        ),
        shown.contains_key("version"@) && shown["version"@] == JsonView::Text(
            status_answer(reply)->Ok_0.version,
        ),
        shown.contains_key("cluster_name"@) <==> status_answer(reply)->Ok_0.cluster_name is Some,
        shown.contains_key("cluster_name"@) ==> shown["cluster_name"@] == JsonView::Text(
            status_answer(reply)->Ok_0.cluster_name->0,
        ),
        forall|k: Seq<char>| #[trigger]
            shown.contains_key(k) ==> k == "sealed"@ || k == "initialized"@ || k == "version"@ || k
                == "cluster_name"@,
{
    reveal_strlit("sealed");
    reveal_strlit("initialized");
    reveal_strlit("version");
    reveal_strlit("cluster_name");
    assert("sealed"@.len() == 6 && "initialized"@.len() == 11);
    assert("version"@.len() == 7 && "cluster_name"@.len() == 12);
    let status = status_answer(reply)->Ok_0;
    let flags = map![
        "sealed"@ => JsonView::Bool(status.sealed),
        "initialized"@ => JsonView::Bool(status.initialized),
        "version"@ => JsonView::Text(status.version)
    ];
    match status.cluster_name {
        Some(name) => flags.insert("cluster_name"@, JsonView::Text(name)),
        None => flags,
    }
}

/// The object that tells a state has its four members and no others, the cluster's
/// name where there is one.
pub proof fn law_the_object_of_a_state(status: StatusView)
    ensures
        status_json(status) == JsonView::Object(
            match status.cluster_name {
                Some(name) => map![
                    "sealed"@ => JsonView::Bool(status.sealed),
                    "initialized"@ => JsonView::Bool(status.initialized),
                    "version"@ => JsonView::Text(status.version),
                    "cluster_name"@ => JsonView::Text(name)
                ],
                None => map![
                    "sealed"@ => JsonView::Bool(status.sealed),
                    "initialized"@ => JsonView::Bool(status.initialized),
                    "version"@ => JsonView::Text(status.version)
                ],
            },
        ),
{
}

/// The objects that tell pairs and names have each of them, as a text, and no others.
pub proof fn law_the_objects_of_pairs_and_names(
    pairs: Map<Seq<char>, Seq<char>>,
    names: Seq<Seq<char>>,
    key: Seq<char>,
    i: int,
)
    ensures
        pairs_json(pairs) matches JsonView::Object(shown) && shown.dom() == pairs.dom(),
        pairs.contains_key(key) ==> pairs_json(pairs)->Object_0[key] == JsonView::Text(pairs[key]),
        secret_json(pairs, None) == JsonView::Object(map!["data"@ => pairs_json(pairs)]),
        secret_json(pairs, Some(key)) == JsonView::Text(pairs[key]),
        names_json(names) matches JsonView::Object(shown) && shown.dom() == set!["keys"@],
        names_json(names)->Object_0["keys"@] matches JsonView::Array(items) && items.len()
            == names.len(),
        0 <= i < names.len() ==> names_json(names)->Object_0["keys"@]->Array_0[i] == JsonView::Text(
            names[i],
        ),
{
    assert(pairs_json(pairs)->Object_0.dom() =~= pairs.dom());
    assert(names_json(names)->Object_0.dom() =~= set!["keys"@]);
}

/// A value of a secret as the caller gets it: a text character for character, any
/// other value in its JSON form.
pub open spec fn told(value: JsonView, text: Seq<char>) -> bool {
    match value {
        JsonView::Text(s) => text == s,
        JsonView::Null => text == "null"@,
        JsonView::Bool(b) => text == if b {
            "true"@
        } else {
            "false"@
        },
        JsonView::Integer(n) => text == signed_decimal(n),
        JsonView::Float(s) => text == s,
        JsonView::Array(_) | JsonView::Object(_) => text == compact(value),
    }
}

/// A secret is told in full: where the document has an object under `data`, `data`,
/// the answer has exactly its names, and under each a text, character for character,
/// or the JSON form of another value.
pub proof fn law_a_secret_is_told(reply: Reply, doc: JsonView, inner: Map<Seq<char>, JsonView>)
    requires
        carries(reply, doc),
        under(doc, "data"@, "data"@) == Some(JsonView::Object(inner)),
    ensures
        get_answer(reply, None) is Ok,
        get_answer(reply, None)->Ok_0.dom() == inner.dom(),
        forall|k: Seq<char>| #[trigger]
            inner.contains_key(k) ==> told(inner[k], get_answer(reply, None)->Ok_0[k]),
        forall|k: Seq<char>| #[trigger]
            inner.contains_key(k) && inner[k] is Text ==> get_answer(reply, None)->Ok_0[k]
                == inner[k]->Text_0,
{
    let answer = get_answer(reply, None)->Ok_0;
    assert(answer.dom() =~= inner.dom());
}

/// One field of a secret is told alone, exactly where the secret has it: a text
/// character for character, or the JSON form of another value.
pub proof fn law_a_field_is_told(
    reply: Reply,
    doc: JsonView,
    inner: Map<Seq<char>, JsonView>,
    name: Seq<char>,
)
    requires
        carries(reply, doc),
        under(doc, "data"@, "data"@) == Some(JsonView::Object(inner)),
    ensures
        get_answer(reply, Some(name)) is Ok <==> inner.contains_key(name),
        get_answer(reply, Some(name)) matches Ok(pairs) ==> {
            &&& pairs.dom() == set![name]
            &&& told(inner[name], pairs[name])
            &&& inner[name] is Text ==> pairs[name] == inner[name]->Text_0
        },
        get_answer(reply, Some(name)) matches Err(err) ==> err == ErrorView::NotFound,
{
    if inner.contains_key(name) {
        let pairs = get_answer(reply, Some(name))->Ok_0;
        assert(pairs.dom() =~= set![name]);
    }
}

/// Where the document has no object under `data`, `data`, the answer is that it is
/// malformed, whatever field is asked for.
pub proof fn law_a_secret_is_not_told(reply: Reply, doc: JsonView, field: Option<Seq<char>>)
    requires
        carries(reply, doc),
        !(under(doc, "data"@, "data"@) matches Some(JsonView::Object(_))),
    ensures
        get_answer(reply, field) == Err::<Map<Seq<char>, Seq<char>>, ErrorView>(
            ErrorView::Internal("vault response malformed"@),
        ),
{
}

/// What the caller of `vault_get` gets for an accepted path: the value of the field as
/// it is; without a field the compact form of an object, which the law gives, with
/// exactly the names of the secret and their values under `data`.
pub proof fn law_a_secret_is_shown(
    allowlist: Seq<Seq<char>>,
    path: Seq<char>,
    reply: Reply,
    doc: JsonView,
    inner: Map<Seq<char>, JsonView>,
    name: Seq<char>,
) -> (shown: Map<Seq<char>, JsonView>)
    requires
        validated_get(allowlist, path) is Ok,
        carries(reply, doc),
        under(doc, "data"@, "data"@) == Some(JsonView::Object(inner)),
    ensures
        inner.contains_key(name) ==> (get_reply(allowlist, path, Some(name), reply) matches Ok(text)
            && told(inner[name], text)),
        inner.contains_key(name) && inner[name] is Text ==> get_reply(
            allowlist,
            path,
            Some(name),
            reply,
        ) == Ok::<Seq<char>, ErrorReplyView>(inner[name]->Text_0),
        !inner.contains_key(name) ==> (get_reply(allowlist, path, Some(name), reply) matches Err(err)
            && err.category == ErrorCategory::ResourceNotFound && err.message
            == "vault returned NotFound"@),
        get_reply(allowlist, path, None, reply) == Ok::<Seq<char>, ErrorReplyView>(
            compact(JsonView::Object(map!["data"@ => JsonView::Object(shown)])),
        ),
        shown.dom() == inner.dom(),
        forall|k: Seq<char>| #[trigger]
            inner.contains_key(k) ==> (shown[k] matches JsonView::Text(text) && told(
                inner[k],
                text,
            )),
        forall|k: Seq<char>| #[trigger]
            inner.contains_key(k) && inner[k] is Text ==> shown[k] == inner[k],
{
    law_a_secret_is_told(reply, doc, inner);
    law_a_field_is_told(reply, doc, inner, name);
    let answer = get_answer(reply, None)->Ok_0;
    let shown = answer.map_values(|s: Seq<char>| JsonView::Text(s));
    assert(shown.dom() =~= inner.dom());
    assert(Map::<Seq<char>, JsonView>::empty().insert("data"@, JsonView::Object(shown))
        =~= map!["data"@ => JsonView::Object(shown)]);
    shown
}

/// A folder is told in full: where the document has an array of texts under `data`,
/// `keys`, the answer has as many names as that has items, each the text of the item
/// at its place.
pub proof fn law_a_folder_is_told(reply: Reply, doc: JsonView, items: Seq<JsonView>)
    requires
        carries(reply, doc),
        under(doc, "data"@, "keys"@) == Some(JsonView::Array(items)),
        forall|i: int| 0 <= i < items.len() ==> (#[trigger] items[i]) is Text,
    ensures
        list_answer(reply) is Ok,
        list_answer(reply)->Ok_0.len() == items.len(),
        forall|i: int|
            0 <= i < items.len() ==> #[trigger] items[i] == JsonView::Text(
                list_answer(reply)->Ok_0[i],
            ),
{
}

/// Where the document has no array under `data`, `keys`, or an item in it that is no
/// text, the answer is that it is malformed.
pub proof fn law_a_folder_is_not_told(reply: Reply, doc: JsonView)
    requires
        carries(reply, doc),
        under(doc, "data"@, "keys"@) matches Some(JsonView::Array(items)) ==> exists|i: int|
            0 <= i < items.len() && !((#[trigger] items[i]) is Text),
    ensures
        list_answer(reply) == Err::<Seq<Seq<char>>, ErrorView>(
            ErrorView::Internal("vault response malformed"@),
        ),
{
}

/// What the caller of `vault_list` gets for an accepted path: the compact form of an
/// object with the very array that Vault sent under `keys`.
pub proof fn law_a_folder_is_shown(
    allowlist: Seq<Seq<char>>,
    path: Seq<char>,
    reply: Reply,
    doc: JsonView,
    items: Seq<JsonView>,
)
    requires
        validated(allowlist, path) is Ok,
        carries(reply, doc),
        under(doc, "data"@, "keys"@) == Some(JsonView::Array(items)),
        forall|i: int| 0 <= i < items.len() ==> (#[trigger] items[i]) is Text,
    ensures
        list_reply(allowlist, path, reply) == Ok::<Seq<char>, ErrorReplyView>(
            compact(JsonView::Object(map!["keys"@ => JsonView::Array(items)])),
        ),
{
    law_a_folder_is_told(reply, doc, items);
    let names = list_answer(reply)->Ok_0;
    assert(names.map_values(|s: Seq<char>| JsonView::Text(s)) =~= items);
    assert(Map::<Seq<char>, JsonView>::empty().insert("keys"@, JsonView::Array(items))
        =~= map!["keys"@ => JsonView::Array(items)]);
}

/// A renewal tells the seconds under `auth`, `lease_duration`, or none where no natural
/// number stands there.
pub proof fn law_a_renewal_is_told(reply: Reply, doc: JsonView)
    requires
        carries(reply, doc),
    ensures
        renew_answer(reply) is Ok,
        under(doc, "auth"@, "lease_duration"@) matches Some(JsonView::Integer(n)) && n >= 0
            ==> renew_answer(reply)->Ok_0 == under(doc, "auth"@, "lease_duration"@)->0->Integer_0,
        !(under(doc, "auth"@, "lease_duration"@) matches Some(JsonView::Integer(n)) && n >= 0)
            ==> renew_answer(reply)->Ok_0 == 0,
{
}

/// What a status means that is no success; `doc` is the document that came with it, if
/// one did.
pub proof fn law_what_statuses_mean(status: u16, doc: Option<JsonView>)
    ensures
        status == 403 ==> status_error(status, doc) == ErrorView::Forbidden,
        status == 404 ==> status_error(status, doc) == ErrorView::NotFound,
        status == 503 && (doc matches Some(JsonView::Object(members)) && members.contains_key(
            "sealed"@,
        ) && members["sealed"@] == JsonView::Bool(true)) ==> status_error(status, doc) == (
        ErrorView::Sealed { will_retry: true }),
        status == 503 && !(doc matches Some(JsonView::Object(members)) && members.contains_key(
            "sealed"@,
        ) && members["sealed"@] == JsonView::Bool(true)) ==> status_error(status, doc)
            == ErrorView::Internal("vault unavailable"@),
        400 <= status <= 499 && status != 403 && status != 404 ==> status_error(status, doc)
            == ErrorView::Internal("vault rejected request"@),
        !(400 <= status <= 499) && status != 503 ==> status_error(status, doc)
            == ErrorView::Internal("vault returned "@ + decimal(status as nat)),
{
}

/// A reply that is no success is answered alike by a read, a listing and a renewal:
/// with what its status means, the body serving only where it is a document.
pub proof fn law_failures_are_answered_by_status(response: Response, field: Option<Seq<char>>)
    requires
        !(200 <= response.status <= 299),
    ensures
        ({
            let doc = if response.body is Ok {
                document(response.body->Ok_0@)
            } else {
                None
            };
            let err = status_error(response.status, doc);
            &&& get_answer(Ok(response), field) == Err::<Map<Seq<char>, Seq<char>>, ErrorView>(err)
            &&& list_answer(Ok(response)) == Err::<Seq<Seq<char>>, ErrorView>(err)
            &&& renew_answer(Ok(response)) == Err::<int, ErrorView>(err)
        }),
{
}

/// A reply that did not come, or whose body did not, is answered by its fault; a body
/// that is no document is malformed.
pub proof fn law_broken_replies_are_answered(
    response: Response,
    fault: TransportFault,
    field: Option<Seq<char>>,
)
    ensures
        get_answer(Err(fault), field) == Err::<Map<Seq<char>, Seq<char>>, ErrorView>(fault.error()),
        list_answer(Err(fault)) == Err::<Seq<Seq<char>>, ErrorView>(fault.error()),
        renew_answer(Err(fault)) == Err::<int, ErrorView>(fault.error()),
        status_answer(Err(fault)) == Err::<StatusView, ErrorView>(fault.error()),
        200 <= response.status <= 299 && (response.body is Err || document(response.body->Ok_0@)
            is None) ==> ({
            let err = if response.body is Err {
                response.body->Err_0.error()
            } else {
                ErrorView::Internal("vault response malformed"@)
            };
            &&& get_answer(Ok(response), field) == Err::<Map<Seq<char>, Seq<char>>, ErrorView>(err)
            &&& list_answer(Ok(response)) == Err::<Seq<Seq<char>>, ErrorView>(err)
            &&& renew_answer(Ok(response)) == Err::<int, ErrorView>(err)
            &&& status_answer(Ok(response)) == Err::<StatusView, ErrorView>(err)
        }),
{
}

/// What a tool makes of a result: a text as it is, any other value in its compact
/// form, an error as its reply; and an error of Vault's as the caller's.
pub proof fn law_what_results_show(
    value: JsonView,
    err: ErrorView,
    allowlist: Seq<Seq<char>>,
    path: Seq<char>,
    field: Option<Seq<char>>,
    reply: Reply,
)
    ensures
        value is Text ==> finished(Ok(value)) == Ok::<Seq<char>, ErrorReplyView>(value->Text_0),
        !(value is Text) ==> finished(Ok(value)) == Ok::<Seq<char>, ErrorReplyView>(compact(value)),
        finished(Err(err)) == Err::<Seq<char>, ErrorReplyView>(err.reply()),
        status_answer(reply) matches Err(e) ==> status_reply(reply) == Err::<
            Seq<char>,
            ErrorReplyView,
        >(e.reply()),
        validated_get(allowlist, path) is Ok && get_answer(reply, field) is Err ==> get_reply(
            allowlist,
            path,
            field,
            reply,
        ) == Err::<Seq<char>, ErrorReplyView>(get_answer(reply, field)->Err_0.reply()),
        validated(allowlist, path) is Ok && list_answer(reply) is Err ==> list_reply(
            allowlist,
            path,
            reply,
        ) == Err::<Seq<char>, ErrorReplyView>(list_answer(reply)->Err_0.reply()),
{
}

/// Every request in full: the verb, the address on the configured server, and the
/// token, which the probe alone does not carry.
pub proof fn law_what_is_asked(loaded: LoadedView, path: Seq<char>)
    ensures
        ({
            let server = trimmed_end(loaded.config.addr, CharClass::Slash);
            let asked = trimmed(path, CharClass::Slash);
            &&& status_asked(loaded).method == Method::Get
            &&& status_asked(loaded).url == server + "/v1/sys/seal-status"@
            &&& status_asked(loaded).token is None
            &&& get_asked(loaded, path).method == Method::Get
            &&& get_asked(loaded, path).url == server + "/v1/secret/data/"@ + asked
            &&& get_asked(loaded, path).token == Some(loaded.token)
            &&& list_asked(loaded, path).method == Method::List
            &&& list_asked(loaded, path).url == server + "/v1/secret/metadata/"@ + asked
            &&& list_asked(loaded, path).token == Some(loaded.token)
            &&& renew_asked(loaded).method == Method::Post
            &&& renew_asked(loaded).url == server + "/v1/auth/token/renew-self"@
            &&& renew_asked(loaded).token == Some(loaded.token)
        }),
{
}

/// A tool asks exactly where the path is accepted, for the accepted path.
pub proof fn law_when_is_asked(loaded: LoadedView, path: Seq<char>)
    ensures
        validated_get(loaded.config.allowlist, path) matches Ok(valid) ==> get_first(loaded, path)
            == Ok::<RequestView, ErrorReplyView>(get_asked(loaded, valid)),
        validated_get(loaded.config.allowlist, path) is Err ==> get_first(loaded, path) == Err::<
            RequestView,
            ErrorReplyView,
        >(ErrorView::BadPath.reply()),
        validated(loaded.config.allowlist, path) matches Ok(valid) ==> list_first(loaded, path)
            == Ok::<RequestView, ErrorReplyView>(list_asked(loaded, valid)),
        validated(loaded.config.allowlist, path) is Err ==> list_first(loaded, path) == Err::<
            RequestView,
            ErrorReplyView,
        >(ErrorView::BadPath.reply()),
{
}

/// Whether nothing in a path as given stands against it: no control character, no two
/// slashes in a row, and no segment `.` or `..`.
pub open spec fn unobjectionable(path: Seq<char>) -> bool {
    &&& forall|i: int| 0 <= i < path.len() ==> !CharClass::Control.has(#[trigger] path[i])
    &&& forall|i: int, j: int|
        0 <= i && j == i + 1 && j < path.len() ==> !(#[trigger] path[i] == '/' && #[trigger] path[j]
            == '/')
    &&& forall|i: int|
        0 <= i < pieces(path, '/').len() ==> #[trigger] pieces(path, '/')[i] != seq!['.']
            && pieces(path, '/')[i] != seq!['.', '.']
}

/// Whether a path is a prefix or goes on behind it with a slash.
pub open spec fn at_or_below(prefix: Seq<char>, path: Seq<char>) -> bool {
    ||| path == prefix
    ||| path.len() > prefix.len() && path.take(prefix.len() as int) == prefix
        && path[prefix.len() as int] == '/'
}

/// Which paths are accepted: those that nothing stands against, and that are at or
/// below one of the prefixes, if there are any. What is accepted is the path without
/// its outer slashes; everything else is refused.
pub proof fn law_which_paths_are_accepted(allowlist: Seq<Seq<char>>, path: Seq<char>)
    ensures
        validated(allowlist, path) is Ok <==> {
            &&& unobjectionable(path)
            &&& allowlist.len() == 0 || exists|i: int|
                0 <= i < allowlist.len() && at_or_below(
                    trimmed(#[trigger] allowlist[i], CharClass::Slash),
                    trimmed(path, CharClass::Slash),
                )
        },
        validated(allowlist, path) matches Ok(valid) ==> valid == trimmed(path, CharClass::Slash),
        validated(allowlist, path) matches Err(err) ==> err == ErrorView::BadPath,
{
    let stripped = trimmed(path, CharClass::Slash);
    lemma_unobjectionable(path);
    assert forall|prefix: Seq<char>| #[trigger] covers(prefix, stripped) <==> at_or_below(
        prefix,
        stripped,
    ) by {
        let longer = prefix.push('/');
        let n = prefix.len() as int;
        if stripped.len() > prefix.len() {
            if longer.is_prefix_of(stripped) {
                assert(longer =~= stripped.subrange(0, n + 1));
                assert(longer[n] == stripped[n]);
                assert(stripped.take(n) =~= longer.take(n));
                assert(longer.take(n) =~= prefix);
            }
            if stripped.take(n) == prefix && stripped[n] == '/' {
                assert(longer =~= stripped.subrange(0, n + 1));
            }
        }
    }
    if allowlist.len() > 0 {
        assert forall|i: int| 0 <= i < allowlist.len() implies (covers(
            trimmed(#[trigger] allowlist[i], CharClass::Slash),
            stripped,
        ) <==> at_or_below(trimmed(allowlist[i], CharClass::Slash), stripped)) by {}
    }
}

/// With no prefixes every path is accepted that nothing stands against, and for a
/// secret every such path but the root.
pub proof fn law_ordinary_paths_are_accepted(path: Seq<char>)
    requires
        unobjectionable(path),
    ensures
        validated(Seq::empty(), path) == Ok::<Seq<char>, ErrorView>(
            trimmed(path, CharClass::Slash),
        ),
        trimmed(path, CharClass::Slash).len() > 0 ==> validated_get(Seq::empty(), path) == Ok::<
            Seq<char>,
            ErrorView,
        >(trimmed(path, CharClass::Slash)),
{
    law_which_paths_are_accepted(Seq::empty(), path);
}

/// The path of a secret is accepted where the path is and is not the root.
pub proof fn law_which_secrets_are_accepted(allowlist: Seq<Seq<char>>, path: Seq<char>)
    ensures
        validated_get(allowlist, path) is Ok <==> validated(allowlist, path) is Ok && trimmed(
            path,
            CharClass::Slash,
        ).len() > 0,
        validated_get(allowlist, path) matches Ok(valid) ==> valid == trimmed(
            path,
            CharClass::Slash,
        ),
        validated_get(allowlist, path) matches Err(err) ==> err == ErrorView::BadPath,
{
    law_which_paths_are_accepted(allowlist, path);
}

/// Nothing stands against a path exactly where it is clean.
proof fn lemma_unobjectionable(path: Seq<char>)
    ensures
        unobjectionable(path) <==> clean(path),
{
    let stripped = trimmed(path, CharClass::Slash);
    let taken = law_trimming(path, CharClass::Slash);
    let n = lemma_pieces_trimmed(path);
    let all = pieces(path, '/');
    let inner = pieces(stripped, '/');
    let front = taken.0.len() as int;
    // Control characters are not slashes, so none is taken.
    assert forall|i: int| 0 <= i < stripped.len() implies #[trigger] stripped[i] == path[front
        + i] by {}
    assert((forall|i: int| 0 <= i < path.len() ==> !CharClass::Control.has(#[trigger] path[i]))
        <==> (forall|i: int|
        0 <= i < stripped.len() ==> !CharClass::Control.has(#[trigger] stripped[i]))) by {
        if forall|i: int| 0 <= i < stripped.len() ==> !CharClass::Control.has(#[trigger] stripped[i]) {
            assert forall|i: int| 0 <= i < path.len() implies !CharClass::Control.has(
                #[trigger] path[i],
            ) by {
                if i < front {
                    assert(path[i] == taken.0[i]);
                } else if i < front + stripped.len() {
                    assert(path[i] == stripped[i - front]);
                } else {
                    assert(path[i] == taken.1[i - front - stripped.len()]);
                }
            }
        }
    }
    // Two slashes in a row, either way of saying it.
    assert((forall|i: int, j: int|
        0 <= i && j == i + 1 && j < path.len() ==> !(#[trigger] path[i] == '/' && #[trigger] path[j]
            == '/')) <==> !doubled(path)) by {
        if !doubled(path) {
            assert forall|i: int, j: int| 0 <= i && j == i + 1 && j < path.len() implies !(
            #[trigger] path[i] == '/' && #[trigger] path[j] == '/') by {
                assert(!slashes_at(path, i));
            }
        } else {
            let i = choose|i: int| #[trigger] slashes_at(path, i);
            assert(path[i] == '/' && path[i + 1] == '/');
        }
    }
    let no_dots = forall|i: int|
        0 <= i < all.len() ==> #[trigger] all[i] != seq!['.'] && all[i] != seq!['.', '.'];
    if !doubled(path) {
        if stripped.len() > 0 {
            assert forall|i: int| 0 <= i < stripped.len() - 1 && #[trigger] stripped[i]
                == '/' implies stripped[i + 1] != '/' by {
                assert(path[front + i] == stripped[i]);
                assert(path[front + i + 1] == stripped[i + 1]);
                assert(!slashes_at(path, front + i));
            }
            lemma_no_empty_piece(stripped, '/');
            assert forall|j: int| 0 <= j < inner.len() implies (#[trigger] inner[j]).len() > 0 by {
                if j == inner.len() - 1 {
                    assert(inner[j] == inner.last());
                }
            }
            if no_dots {
                assert forall|j: int| 0 <= j < inner.len() implies !nameless(#[trigger] inner[j]) by {
                    assert(all[j + n.0] == inner[j]);
                }
            }
            if forall|j: int| 0 <= j < inner.len() ==> !nameless(#[trigger] inner[j]) {
                assert forall|i: int| 0 <= i < all.len() implies #[trigger] all[i] != seq!['.']
                    && all[i] != seq!['.', '.'] by {
                    if n.0 <= i < n.0 + inner.len() {
                        assert(all[i] == inner[i - n.0]);
                        assert(!nameless(inner[i - n.0]));
                    } else {
                        assert(all[i].len() == 0);
                    }
                }
            }
        } else {
            assert(stripped =~= Seq::<char>::empty());
            assert(inner[0].len() == 0);
            assert forall|i: int| 0 <= i < all.len() implies #[trigger] all[i] != seq!['.']
                && all[i] != seq!['.', '.'] by {
                if n.0 <= i < n.0 + inner.len() {
                    assert(all[i] == inner[i - n.0]);
                }
                assert(all[i].len() == 0);
            }
        }
    }
}

/// A configuration passes exactly where its address has a character that is not white
/// space and its token's path is not empty; the address is looked at first, and what
/// passes is the configuration as it was.
pub proof fn law_which_configurations_pass(config: ConfigView)
    ensures
        ({
            let addressed = exists|i: int|
                0 <= i < config.addr.len() && !CharClass::Whitespace.has(#[trigger] config.addr[i]);
            config.checked() == if !addressed {
                Err(ConfigErrorView::EmptyAddr)
            } else if config.token_path.len() == 0 {
                Err(ConfigErrorView::EmptyTokenPath)
            } else {
                Ok(config)
            }
        }),
{
    lemma_trimmed_away(config.addr, CharClass::Whitespace);
}

/// Nothing is left of a text exactly where all its characters are of the class.
proof fn lemma_trimmed_away(s: Seq<char>, class: CharClass)
    ensures
        trimmed(s, class).len() > 0 <==> exists|i: int|
            0 <= i < s.len() && !class.has(#[trigger] s[i]),
{
    let taken = law_trimming(s, class);
    let left = trimmed(s, class);
    if left.len() > 0 {
        assert(s[taken.0.len() as int] == left[0]);
    } else {
        assert forall|i: int| 0 <= i < s.len() implies class.has(#[trigger] s[i]) by {
            if i < taken.0.len() {
                assert(s[i] == taken.0[i]);
            } else {
                assert(s[i] == taken.1[i - taken.0.len()]);
            }
        }
    }
}

/// A token file gives a token exactly where its text has a character that is not white
/// space. The token is the text without the white space around it, which the law
/// gives, and the configuration stays as it is.
pub proof fn law_which_tokens_are_taken(config: ConfigView, text: Seq<char>) -> (taken: (
    Seq<char>,
    Seq<char>,
))
    ensures
        with_token(config, Ok(text)) is Ok <==> exists|i: int|
            0 <= i < text.len() && !CharClass::Whitespace.has(#[trigger] text[i]),
        with_token(config, Ok(text)) matches Ok(loaded) ==> {
            &&& loaded.config == config
            &&& text == taken.0 + loaded.token + taken.1
            &&& loaded.token.len() > 0
            &&& !CharClass::Whitespace.has(loaded.token[0])
            &&& !CharClass::Whitespace.has(loaded.token[loaded.token.len() - 1])
        },
        forall|i: int| 0 <= i < taken.0.len() ==> CharClass::Whitespace.has(#[trigger] taken.0[i]),
        forall|i: int| 0 <= i < taken.1.len() ==> CharClass::Whitespace.has(#[trigger] taken.1[i]),
        with_token(config, Ok(text)) matches Err(err) ==> err == (ConfigErrorView::EmptyToken {
            path: config.token_path,
        }),
{
    lemma_trimmed_away(text, CharClass::Whitespace);
    law_trimming(text, CharClass::Whitespace)
}

/// A token file that cannot be read gives the error that names it and the cause.
pub proof fn law_unread_tokens_are_reported(config: ConfigView, cause: Seq<char>)
    ensures
        with_token(config, Err(cause)) == Err::<LoadedView, ConfigErrorView>(
            ConfigErrorView::ReadToken { path: config.token_path, cause },
        ),
{
}

/// A store after a reload has the new snapshot, whatever it is, or, after a failure,
/// the old one; its path stays.
pub proof fn law_what_reloads_do(store: StoreView, fresh: LoadedView, err: ConfigErrorView)
    ensures
        reloaded(store, Ok(fresh)).current == fresh,
        reloaded(store, Ok(fresh)).path == store.path,
        reloaded(store, Err(err)).current == store.current,
        reloaded(store, Err(err)).path == store.path,
{
}

/// What a reader is told of a configuration that cannot be used, whatever its paths.
pub proof fn law_what_configuration_errors_tell(path: Seq<char>, cause: Seq<char>)
    ensures
        (ConfigErrorView::ReadConfig { path, cause }).message() == "read kytti config "@ + path,
        (ConfigErrorView::Parse { cause }).message() == "parse kytti config"@,
        ConfigErrorView::EmptyAddr.message() == "vault.addr is empty"@,
        ConfigErrorView::EmptyTokenPath.message() == "vault.token_path is empty"@,
        (ConfigErrorView::ReadToken { path, cause }).message() == "read vault token "@ + path,
        (ConfigErrorView::EmptyToken { path }).message() == "vault token at "@ + path
            + " is empty"@,
{
}

/// What arguments ask for: help or the version where the first one says so, else
/// standard input and output where any one does, else HTTP.
pub proof fn law_what_arguments_ask(args: Seq<Seq<char>>)
    ensures
        asked_mode(args) is Help <==> args.len() > 0 && (args[0] == "--help"@ || args[0] == "-h"@),
        asked_mode(args) is Version <==> args.len() > 0 && (args[0] == "--version"@ || args[0]
            == "-V"@),
        asked_mode(args) is Stdio <==> !(asked_mode(args) is Help) && !(asked_mode(
            args,
        ) is Version) && exists|i: int| 0 <= i < args.len() && #[trigger] args[i] == "--stdio"@,
{
    reveal_strlit("--help");
    reveal_strlit("-h");
    reveal_strlit("--version");
    reveal_strlit("-V");
    assert("--help"@.len() == 6 && "--version"@.len() == 9);
    assert("-h"@.len() == 2 && "-V"@.len() == 2);
    assert("-h"@[1] == 'h' && "-V"@[1] == 'V');
    if exists|i: int| 0 <= i < args.len() && #[trigger] args[i] == "--stdio"@ {
        assert(args.contains("--stdio"@));
    }
}

/// The hosts of a list: those of what stands before a comma and then those of what
/// stands behind it; without a comma the one bare host, or none where that is empty.
pub proof fn law_which_hosts_are_listed(a: Seq<char>, b: Seq<char>)
    ensures
        listed_hosts(a + seq![','] + b) == listed_hosts(a) + listed_hosts(b),
        (forall|i: int| 0 <= i < a.len() ==> #[trigger] a[i] != ',') ==> listed_hosts(a)
            == if trimmed(a, CharClass::Whitespace).len() > 0 {
            seq![trimmed(a, CharClass::Whitespace)]
        } else {
            Seq::empty()
        },
{
    let bared = |host: Seq<char>| bare(host);
    let filled = |host: Seq<char>| host.len() > 0;
    law_pieces(a, b, ',');
    let xs = pieces(a, ',').map_values(bared);
    let ys = pieces(b, ',').map_values(bared);
    assert(pieces(a + seq![','] + b, ',').map_values(bared) =~= xs + ys);
    Seq::filter_distributes_over_add(xs, ys, filled);
    if forall|i: int| 0 <= i < a.len() ==> #[trigger] a[i] != ',' {
        reveal(Seq::filter);
        let one = trimmed(a, CharClass::Whitespace);
        assert(xs =~= seq![one]);
        assert(xs.drop_last() =~= Seq::<Seq<char>>::empty());
        assert(xs.drop_last().filter(filled) =~= Seq::<Seq<char>>::empty());
        assert(listed_hosts(a) =~= if one.len() > 0 {
            seq![one]
        } else {
            Seq::empty()
        });
    }
}

/// Which policy a setting asks for: the server's own without one, any host for a star
/// alone but for white space, and the listed hosts else.
pub proof fn law_which_hosts_are_asked(text: Seq<char>)
    ensures
        asked_hosts(None) is Default,
        trimmed(text, CharClass::Whitespace) == "*"@ ==> asked_hosts(Some(text)) is Any,
        trimmed(text, CharClass::Whitespace) != "*"@ ==> asked_hosts(Some(text))
            == HostPolicyView::Only(listed_hosts(text)),
{
}

/// Every step of the two background tasks.
pub proof fn law_every_step(seconds: u64)
    ensures
        renew_step(RenewEvent::Started) == (RenewAction::Sleep { seconds: 86400 }),
        renew_step(RenewEvent::Slept) == RenewAction::BuildClient,
        renew_step(RenewEvent::ClientBuilt) == RenewAction::Renew,
        renew_step(RenewEvent::ClientFailed) == (RenewAction::Sleep { seconds: 86400 }),
        renew_step(RenewEvent::Renewed { seconds }) == (RenewAction::Sleep { seconds: 86400 }),
        renew_step(RenewEvent::RenewFailed) == (RenewAction::Sleep { seconds: 86400 }),
        reload_step(ReloadEvent::Installed) == ReloadAction::AwaitSignal,
        reload_step(ReloadEvent::InstallFailed) == ReloadAction::Stop,
        reload_step(ReloadEvent::Signalled) == ReloadAction::Reload,
        reload_step(ReloadEvent::Closed) == ReloadAction::Stop,
        reload_step(ReloadEvent::Reloaded) == ReloadAction::AwaitSignal,
        reload_step(ReloadEvent::ReloadFailed) == ReloadAction::AwaitSignal,
{
}

} // verus!
