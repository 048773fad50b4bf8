//! The three tools: which paths may be asked for, and what the caller gets.

use vstd::prelude::*;
use vstd::string::*;

use crate::config::{ConfigStore, LoadedView};
use crate::errors::{outcome, ErrorReply, ErrorReplyView, ErrorView, KyttiError};
use crate::json::{compact, items_view, members_view, put, Json, JsonView};
use crate::map::StringMap;
use crate::text::{chars_of, pieces, texts, trim, trimmed, CharClass};
use crate::vault::{
    get_answer, get_asked, list_answer, list_asked, status_answer, status_asked, Reply, Request,
    RequestView, StatusView, VaultClient, VaultStatus,
};

verus! {

/// What `vault_get` is asked.
#[derive(Debug)]
pub struct GetArgs {
    /// CLI-style KV v2 path under `secret/`, such as `infra/telegram`. No leading
    /// slash, no `secret/` prefix.
    pub path: String,
    /// The name of the one field to return, if only one is wanted.
    pub field: Option<String>,
}

/// What `vault_list` is asked.
#[derive(Debug)]
pub struct ListArgs {
    /// CLI-style KV v2 folder path; the empty text is the root.
    pub path: String,
}

/// What `vault_get` found.
#[derive(Debug)]
pub struct GetResult {
    /// The value of the field, where one was named.
    pub value: Option<String>,
    /// All pairs at the path, where no field was named.
    pub data: Option<StringMap>,
}

/// What `vault_list` found.
#[derive(Debug)]
pub struct ListResult {
    pub keys: Vec<String>,
}

/// Whether a segment of a path stands for no name of its own: empty, `.` or `..`.
pub open spec fn nameless(segment: Seq<char>) -> bool {
    segment.len() == 0 || segment == seq!['.'] || segment == seq!['.', '.']
}

/// Whether a path without outer slashes is sound: no control character, and, but
/// for the empty path, a name in every segment.
pub open spec fn sound(path: Seq<char>) -> bool {
    &&& forall|i: int| 0 <= i < path.len() ==> !CharClass::Control.has(#[trigger] path[i])
    &&& path.len() > 0 ==> all_named(pieces(path, '/'))
}

/// Whether every segment has a name.
pub open spec fn all_named(segments: Seq<Seq<char>>) -> bool {
    forall|i: int| 0 <= i < segments.len() ==> !nameless(#[trigger] segments[i])
}

/// Whether two slashes in a row stand at place `i`.
pub open spec fn slashes_at(path: Seq<char>, i: int) -> bool {
    0 <= i < path.len() - 1 && path[i] == '/' && path[i + 1] == '/'
}

/// Whether two slashes in a row stand anywhere in a path.
pub open spec fn doubled(path: Seq<char>) -> bool {
    exists|i: int| #[trigger] slashes_at(path, i)
}

/// Whether a path as it is given is clean: no double slash, at the ends no more than
/// inside, and sound without the slash that may stand at either end.
pub open spec fn clean(path: Seq<char>) -> bool {
    !doubled(path) && sound(trimmed(path, CharClass::Slash))
}

/// Whether `path` is `prefix` or lies below it.
pub open spec fn covers(prefix: Seq<char>, path: Seq<char>) -> bool {
    path == prefix || prefix.push('/').is_prefix_of(path)
}

/// Whether an allowlist lets a path through. An empty one lets every path through.
pub open spec fn permits(allowlist: Seq<Seq<char>>, path: Seq<char>) -> bool {
    allowlist.len() == 0 || exists|i: int|
        0 <= i < allowlist.len() && covers(trimmed(#[trigger] allowlist[i], CharClass::Slash), path)
}

/// The path as it may be asked for, without a slash at either end, or the refusal.
pub open spec fn validated(allowlist: Seq<Seq<char>>, path: Seq<char>) -> Result<
    Seq<char>,
    ErrorView,
> {
    let stripped = trimmed(path, CharClass::Slash);
    if clean(path) && permits(allowlist, stripped) {
        Ok(stripped)
    } else {
        Err(ErrorView::BadPath)
    }
}

/// The same for the path of a secret, which the empty path is not.
pub open spec fn validated_get(allowlist: Seq<Seq<char>>, path: Seq<char>) -> Result<
    Seq<char>,
    ErrorView,
> {
    match validated(allowlist, path) {
        Ok(stripped) => if stripped.len() == 0 {
            Err(ErrorView::BadPath)
        } else {
            Ok(stripped)
        },
        Err(err) => Err(err),
    }
}

/// Tells whether a character of `class` occurs.
fn occurs(chars: &Vec<char>, class: CharClass) -> (yes: bool)
    ensures
        yes == exists|i: int| 0 <= i < chars@.len() && class.has(#[trigger] chars@[i]),
{
    let mut i: usize = 0;
    while i < chars.len()
        invariant
            i <= chars@.len(),
            forall|j: int| 0 <= j < i ==> !class.has(#[trigger] chars@[j]),
        decreases chars.len() - i,
    {
        if class.contains(chars[i]) {
            return true;
        }
        i = i + 1;
    }
    false
}

/// Tells whether two slashes in a row stand anywhere in a path.
fn is_doubled(chars: &Vec<char>) -> (yes: bool)
    ensures
        yes == doubled(chars@),
{
    let mut i: usize = 1;
    while i < chars.len()
        invariant
            1 <= i,
            i <= chars@.len() || i == 1,
            forall|j: int| j < i - 1 ==> !#[trigger] slashes_at(chars@, j),
        decreases chars.len() - i,
    {
        if chars[i - 1] == '/' && chars[i] == '/' {
            proof {
                assert(slashes_at(chars@, i - 1));
            }
            return true;
        }
        i = i + 1;
    }
    false
}

/// Tells whether the segment from `start` up to `end` has no name.
fn is_nameless(chars: &Vec<char>, start: usize, end: usize) -> (yes: bool)
    requires
        start <= end <= chars@.len(),
    ensures
        yes == nameless(chars@.subrange(start as int, end as int)),
{
    let ghost segment = chars@.subrange(start as int, end as int);
    let len: usize = end - start;
    if len == 0 {
        true
    } else if len == 1 {
        proof {
            assert(segment =~= seq![chars@[start as int]]);
            assert(seq!['.'][0] == '.');
        }
        chars[start] == '.'
    } else if len == 2 {
        proof {
            assert(segment =~= seq![chars@[start as int], chars@[start + 1]]);
            assert(seq!['.', '.'][0] == '.');
            assert(seq!['.', '.'][1] == '.');
        }
        chars[start] == '.' && chars[start + 1] == '.'
    } else {
        false
    }
}

/// Tells whether every segment of a path has a name.
fn segments_named(chars: &Vec<char>) -> (yes: bool)
    ensures
        yes == all_named(pieces(chars@, '/')),
{
    let len: usize = chars.len();
    let mut start: usize = 0;
    let mut i: usize = 0;
    let mut yes: bool = true;
    let ghost mut done: Seq<Seq<char>> = Seq::empty();
    proof {
        assert(chars@.take(0) =~= Seq::<char>::empty());
        assert(done.push(chars@.subrange(0, 0)) =~= pieces(chars@.take(0), '/'));
    }
    while i < len
        invariant
            start <= i <= len == chars@.len(),
            done.push(chars@.subrange(start as int, i as int)) == pieces(
                chars@.take(i as int),
                '/',
            ),
            yes == all_named(done),
        decreases len - i,
    {
        let ghost segment = chars@.subrange(start as int, i as int);
        proof {
            assert(chars@.take(i + 1).drop_last() =~= chars@.take(i as int));
            assert(done.push(segment).drop_last() =~= done);
        }
        if chars[i] == '/' {
            if is_nameless(chars, start, i) {
                yes = false;
            }
            proof {
                assert(chars@.subrange(i + 1, i + 1) =~= Seq::<char>::empty());
                lemma_all_named_push(done, segment);
                done = done.push(segment);
            }
            start = i + 1;
        } else {
            proof {
                assert(chars@.subrange(start as int, i + 1) =~= segment.push(chars@[i as int]));
            }
        }
        i = i + 1;
    }
    proof {
        assert(chars@.take(len as int) =~= chars@);
        lemma_all_named_push(done, chars@.subrange(start as int, len as int));
    }
    yes && !is_nameless(chars, start, len)
}

/// One more segment.
proof fn lemma_all_named_push(segments: Seq<Seq<char>>, segment: Seq<char>)
    ensures
        all_named(segments.push(segment)) == (all_named(segments) && !nameless(segment)),
{
    let more = segments.push(segment);
    if all_named(more) {
        assert(more[segments.len() as int] == segment);
        assert forall|i: int| 0 <= i < segments.len() implies !nameless(#[trigger] segments[i]) by {
            assert(more[i] == segments[i]);
        }
    }
}

/// Tells whether `path` is `prefix` or lies below it.
fn is_covered(prefix: &Vec<char>, path: &Vec<char>) -> (yes: bool)
    ensures
        yes == covers(prefix@, path@),
{
    let ghost longer = prefix@.push('/');
    if path.len() < prefix.len() {
        return false;
    }
    let mut i: usize = 0;
    while i < prefix.len()
        invariant
            i <= prefix@.len() <= path@.len(),
            longer == prefix@.push('/'),
            forall|j: int| 0 <= j < i ==> prefix@[j] == #[trigger] path@[j],
        decreases prefix.len() - i,
    {
        if prefix[i] != path[i] {
            proof {
                assert(longer[i as int] == prefix@[i as int]);
                if longer.is_prefix_of(path@) {
                    assert(path@.subrange(0, longer.len() as int)[i as int] == path@[i as int]);
                }
            }
            return false;
        }
        i = i + 1;
    }
    if path.len() == prefix.len() {
        proof {
            assert(path@ =~= prefix@);
        }
        true
    } else {
        proof {
            if path@[i as int] == '/' {
                assert(longer =~= path@.subrange(0, longer.len() as int));
            } else if longer.is_prefix_of(path@) {
                assert(longer[i as int] == '/');
                assert(path@.subrange(0, longer.len() as int)[i as int] == path@[i as int]);
            }
        }
        path[i] == '/'
    }
}

/// The gateway: answers the tools on behalf of a snapshot.
#[derive(Debug)]
pub struct Kytti {
    client: VaultClient,
}

impl View for Kytti {
    type V = LoadedView;

    /// The snapshot that the gateway works with.
    closed spec fn view(&self) -> LoadedView {
        self.client@
    }
}

impl Clone for Kytti {
    fn clone(&self) -> (copy: Kytti)
        ensures
            copy@ == self@,
    {
        Kytti { client: self.client.copy() }
    }
}

impl Kytti {
    /// A gateway for the store's snapshot, where the HTTP client could be built.
    pub fn new(store: ConfigStore, built: Result<(), String>) -> (kytti: Result<Kytti, KyttiError>)
        ensures
            outcome(kytti) == match built {
                Ok(_) => Ok(store@.current),
                Err(cause) => Err(ErrorView::Internal("http client build: "@ + cause@)),
            },
    {
        match VaultClient::new(store, built) {
            Ok(client) => Ok(Kytti { client }),
            Err(err) => Err(err),
        }
    }

    /// The path as it may be asked for, or the refusal.
    pub fn validate_path(&self, path: &str) -> (valid: Result<String, KyttiError>)
        ensures
            outcome(valid) == validated(self@.config.allowlist, path@),
    {
        if is_doubled(&chars_of(path)) {
            return Err(KyttiError::BadPath);
        }
        let stripped = trim(path, CharClass::Slash);
        let chars = chars_of(stripped);
        if occurs(&chars, CharClass::Control) {
            return Err(KyttiError::BadPath);
        }
        if !stripped.is_empty() && !segments_named(&chars) {
            return Err(KyttiError::BadPath);
        }
        let allowlist: &Vec<String> = &self.client.snapshot().config.security.path_allowlist;
        proof {
            assert(texts(allowlist@) == self@.config.allowlist);
        }
        if allowlist.len() == 0 {
            return Ok(stripped.to_owned());
        }
        let mut i: usize = 0;
        while i < allowlist.len()
            invariant
                i <= allowlist@.len(),
                texts(allowlist@) == self@.config.allowlist,
                chars@ == stripped@,
                stripped@ == trimmed(path@, CharClass::Slash),
                clean(path@),
                forall|j: int|
                    0 <= j < i ==> !covers(
                        trimmed(#[trigger] self@.config.allowlist[j], CharClass::Slash),
                        stripped@,
                    ),
            decreases allowlist.len() - i,
        {
            proof {
                assert(self@.config.allowlist[i as int] == allowlist@[i as int]@);
            }
            let prefix = chars_of(trim(allowlist[i].as_str(), CharClass::Slash));
            if is_covered(&prefix, &chars) {
                return Ok(stripped.to_owned());
            }
            i = i + 1;
        }
        Err(KyttiError::BadPath)
    }

    /// The path of a secret as it may be asked for, or the refusal.
    pub fn validate_get_path(&self, path: &str) -> (valid: Result<String, KyttiError>)
        ensures
            outcome(valid) == validated_get(self@.config.allowlist, path@),
    {
        match self.validate_path(path) {
            Ok(stripped) => if stripped.as_str().is_empty() {
                Err(KyttiError::BadPath)
            } else {
                Ok(stripped)
            },
            Err(err) => Err(err),
        }
    }
}

/// Vault's state as the caller gets it: the name of the cluster is left out where
/// there is none.
pub open spec fn status_json(status: StatusView) -> JsonView {
    let members = Map::<Seq<char>, JsonView>::empty().insert(
        "sealed"@,
        JsonView::Bool(status.sealed),
    ).insert("initialized"@, JsonView::Bool(status.initialized)).insert(
        "version"@,
        JsonView::Text(status.version),
    );
    match status.cluster_name {
        Some(name) => JsonView::Object(members.insert("cluster_name"@, JsonView::Text(name))),
        None => JsonView::Object(members),
    }
}

/// The pairs of a secret as an object.
pub open spec fn pairs_json(pairs: Map<Seq<char>, Seq<char>>) -> JsonView {
    JsonView::Object(pairs.map_values(|s: Seq<char>| JsonView::Text(s)))
}

/// A found secret as the caller gets it: the value of the one field as it is, or
/// all pairs.
pub open spec fn secret_json(pairs: Map<Seq<char>, Seq<char>>, field: Option<Seq<char>>) -> JsonView {
    match field {
        Some(name) => JsonView::Text(pairs[name]),
        None => JsonView::Object(
            Map::<Seq<char>, JsonView>::empty().insert("data"@, pairs_json(pairs)),
        ),
    }
}

/// Listed names as the caller gets them.
pub open spec fn names_json(names: Seq<Seq<char>>) -> JsonView {
    JsonView::Object(
        Map::<Seq<char>, JsonView>::empty().insert(
            "keys"@,
            JsonView::Array(names.map_values(|s: Seq<char>| JsonView::Text(s))),
        ),
    )
}

impl VaultStatus {
    /// Vault's state as the caller gets it.
    pub fn to_json(&self) -> (json: Json)
        ensures
            json@ == status_json(self@),
    {
        let mut members: Vec<(String, Json)> = Vec::new();
        put(&mut members, "sealed", Json::Bool(self.sealed));
        put(&mut members, "initialized", Json::Bool(self.initialized));
        put(&mut members, "version", Json::String(self.version.clone()));
        if let Some(name) = &self.cluster_name {
            put(&mut members, "cluster_name", Json::String(name.clone()));
        }
        Json::Object(members)
    }
}

/// Writes the pairs of a secret as an object, in the order of their keys.
fn pairs_to_json(pairs: &StringMap) -> (json: Json)
    ensures
        json@ == pairs_json(pairs@),
{
    let len: usize = pairs.len();
    let mut members: Vec<(String, Json)> = Vec::new();
    let mut i: usize = 0;
    let ghost keys = pairs.keys();
    while i < len
        invariant
            i <= len == keys.len(),
            keys == pairs.keys(),
            forall|k: Seq<char>| #[trigger]
                members_view(members@).contains_key(k) <==> keys.take(i as int).contains(k),
            forall|k: Seq<char>| #[trigger]
                members_view(members@).contains_key(k) ==> members_view(members@)[k]
                    == JsonView::Text(pairs@[k]),
        decreases len - i,
    {
        let (key, value) = pairs.at(i);
        let ghost before = members_view(members@);
        put(&mut members, key.as_str(), Json::String(value.clone()));
        proof {
            let now = members_view(members@);
            let shown = keys.take(i as int);
            let next = keys.take(i + 1);
            assert(next =~= shown.push(key@));
            assert forall|k: Seq<char>| #[trigger] now.contains_key(k) <==> next.contains(k) by {
                if k == key@ {
                    assert(next[i as int] == k);
                }
                if shown.contains(k) {
                    let j = choose|j: int| 0 <= j < shown.len() && shown[j] == k;
                    assert(next[j] == k);
                }
                if next.contains(k) && k != key@ {
                    let j = choose|j: int| 0 <= j < next.len() && next[j] == k;
                    assert(shown[j] == k);
                }
                assert(before.contains_key(k) <==> shown.contains(k));
            }
            assert forall|k: Seq<char>| #[trigger] now.contains_key(k) implies now[k]
                == JsonView::Text(pairs@[k]) by {
                if k != key@ {
                    assert(before.contains_key(k));
                }
            }
        }
        i = i + 1;
    }
    proof {
        assert(keys.take(len as int) =~= keys);
        assert(members_view(members@) =~= pairs@.map_values(|s: Seq<char>| JsonView::Text(s)));
    }
    Json::Object(members)
}

impl GetResult {
    /// A found secret as the caller gets it: a value alone as it is, anything else as
    /// an object of what is there.
    pub fn to_json(&self) -> (json: Json)
        ensures
            json@ == match (self.value, self.data) {
                (Some(value), None) => JsonView::Text(value@),
                (Some(value), Some(pairs)) => JsonView::Object(
                    Map::<Seq<char>, JsonView>::empty().insert(
                        "value"@,
                        JsonView::Text(value@),
                    ).insert("data"@, pairs_json(pairs@)),
                ),
                (None, Some(pairs)) => secret_json(pairs@, None),
                (None, None) => JsonView::Object(Map::empty()),
            },
    {
        let mut members: Vec<(String, Json)> = Vec::new();
        if let Some(value) = &self.value {
            if self.data.is_none() {
                return Json::String(value.clone());
            }
            put(&mut members, "value", Json::String(value.clone()));
        }
        if let Some(pairs) = &self.data {
            put(&mut members, "data", pairs_to_json(pairs));
        }
        Json::Object(members)
    }
}

impl ListResult {
    /// Listed names as the caller gets them.
    pub fn to_json(&self) -> (json: Json)
        ensures
            json@ == names_json(texts(self.keys@)),
    {
        let mut items: Vec<Json> = Vec::new();
        let mut i: usize = 0;
        let ghost wanted = texts(self.keys@).map_values(|s: Seq<char>| JsonView::Text(s));
        proof {
            assert(items_view(items@) =~= wanted.take(0));
        }
        while i < self.keys.len()
            invariant
                i <= self.keys@.len(),
                wanted == texts(self.keys@).map_values(|s: Seq<char>| JsonView::Text(s)),
                items_view(items@) == wanted.take(i as int),
            decreases self.keys.len() - i,
        {
            let ghost before = items@;
            items.push(Json::String(self.keys[i].clone()));
            proof {
                assert(items@.drop_last() =~= before);
                assert(items@.last()@ == wanted[i as int]);
                assert(items_view(items@) == items_view(before).push(items@.last()@));
                assert(wanted.take(i + 1) =~= wanted.take(i as int).push(wanted[i as int]));
            }
            i = i + 1;
        }
        proof {
            assert(wanted.take(i as int) =~= wanted);
        }
        let mut members: Vec<(String, Json)> = Vec::new();
        put(&mut members, "keys", Json::Array(items));
        Json::Object(members)
    }
}

/// What the caller gets for a result: a text as it is, any other value in its
/// compact form, or the error reply.
pub open spec fn finished(result: Result<JsonView, ErrorView>) -> Result<Seq<char>, ErrorReplyView> {
    match result {
        Ok(JsonView::Text(s)) => Ok(s),
        Ok(value) => Ok(compact(value)),
        Err(err) => Err(err.reply()),
    }
}

/// Turns a result into what the caller gets.
pub fn finish(result: Result<Json, KyttiError>) -> (reply: Result<String, ErrorReply>)
    ensures
        outcome(reply) == finished(outcome(result)),
{
    match result {
        Ok(Json::String(s)) => Ok(s),
        Ok(value) => Ok(value.to_text()),
        Err(err) => Err(ErrorReply::from(err)),
    }
}

/// What the caller of `vault_status` gets.
pub open spec fn status_reply(reply: Reply) -> Result<Seq<char>, ErrorReplyView> {
    match status_answer(reply) {
        Ok(status) => finished(Ok(status_json(status))),
        Err(err) => Err(err.reply()),
    }
}

/// What the caller of `vault_get` gets.
pub open spec fn get_reply(
    allowlist: Seq<Seq<char>>,
    path: Seq<char>,
    field: Option<Seq<char>>,
    reply: Reply,
) -> Result<Seq<char>, ErrorReplyView> {
    match validated_get(allowlist, path) {
        Err(err) => Err(err.reply()),
        Ok(_) => match get_answer(reply, field) {
            Ok(pairs) => finished(Ok(secret_json(pairs, field))),
            Err(err) => Err(err.reply()),
        },
    }
}

/// What the caller of `vault_list` gets.
pub open spec fn list_reply(
    allowlist: Seq<Seq<char>>,
    path: Seq<char>,
    reply: Reply,
) -> Result<Seq<char>, ErrorReplyView> {
    match validated(allowlist, path) {
        Err(err) => Err(err.reply()),
        Ok(_) => match list_answer(reply) {
            Ok(names) => finished(Ok(names_json(names))),
            Err(err) => Err(err.reply()),
        },
    }
}

/// The request that `vault_get` makes, or the error reply that saves it.
pub open spec fn get_first(
    loaded: LoadedView,
    path: Seq<char>,
) -> Result<RequestView, ErrorReplyView> {
    match validated_get(loaded.config.allowlist, path) {
        Ok(valid) => Ok(get_asked(loaded, valid)),
        Err(err) => Err(err.reply()),
    }
}

/// The request that `vault_list` makes, or the error reply that saves it.
pub open spec fn list_first(
    loaded: LoadedView,
    path: Seq<char>,
) -> Result<RequestView, ErrorReplyView> {
    match validated(loaded.config.allowlist, path) {
        Ok(valid) => Ok(list_asked(loaded, valid)),
        Err(err) => Err(err.reply()),
    }
}

/// The text of an optional string.
pub open spec fn field_view(field: Option<String>) -> Option<Seq<char>> {
    match field {
        Some(name) => Some(name@),
        None => None,
    }
}

impl Kytti {
    /// The request that `vault_status` makes.
    pub fn vault_status_request(&self) -> (request: Request)
        ensures
            request@ == status_asked(self@),
    {
        self.client.status_request()
    }

    /// `vault_status`: Vault's state, from the reply to its request.
    pub fn vault_status(&self, reply: Reply) -> (result: Result<String, ErrorReply>)
        ensures
            outcome(result) == status_reply(reply),
    {
        match self.client.status(reply) {
            Ok(status) => finish(Ok(status.to_json())),
            Err(err) => finish(Err(err)),
        }
    }

    /// The request that `vault_get` makes, or the error reply where the path is
    /// refused and none is made.
    pub fn vault_get_request(&self, args: &GetArgs) -> (request: Result<Request, ErrorReply>)
        ensures
            outcome(request) == get_first(self@, args.path@),
    {
        match self.validate_get_path(args.path.as_str()) {
            Ok(path) => Ok(self.client.get_request(path.as_str())),
            Err(err) => Err(ErrorReply::from(err)),
        }
    }

    /// `vault_get`: the value of a field as plain text, or all pairs at the path,
    /// from the reply to its request.
    pub fn vault_get(&self, args: &GetArgs, reply: Reply) -> (result: Result<String, ErrorReply>)
        ensures
            outcome(result) == get_reply(
                self@.config.allowlist,
                args.path@,
                field_view(args.field),
                reply,
            ),
    {
        if let Err(err) = self.validate_get_path(args.path.as_str()) {
            return finish(Err(err));
        }
        let field: Option<&str> = match &args.field {
            Some(name) => Some(name.as_str()),
            None => None,
        };
        let mut pairs = match self.client.get(reply, field) {
            Ok(pairs) => pairs,
            Err(err) => return finish(Err(err)),
        };
        let found = match field {
            Some(name) => GetResult { value: pairs.remove(name), data: None },
            None => GetResult { value: None, data: Some(pairs) },
        };
        finish(Ok(found.to_json()))
    }

    /// The request that `vault_list` makes, or the error reply where the path is
    /// refused and none is made.
    pub fn vault_list_request(&self, args: &ListArgs) -> (request: Result<Request, ErrorReply>)
        ensures
            outcome(request) == list_first(self@, args.path@),
    {
        match self.validate_path(args.path.as_str()) {
            Ok(path) => Ok(self.client.list_request(path.as_str())),
            Err(err) => Err(ErrorReply::from(err)),
        }
    }

    /// `vault_list`: the names in a folder, from the reply to its request.
    pub fn vault_list(&self, args: &ListArgs, reply: Reply) -> (result: Result<String, ErrorReply>)
        ensures
            outcome(result) == list_reply(self@.config.allowlist, args.path@, reply),
    {
        if let Err(err) = self.validate_path(args.path.as_str()) {
            return finish(Err(err));
        }
        match self.client.list(reply) {
            Ok(keys) => finish(Ok(ListResult { keys }.to_json())),
            Err(err) => finish(Err(err)),
        }
    }
}

} // verus!
