//! What holds of the library as a whole.

use vstd::prelude::*;

use crate::config::{reloaded, with_token, ConfigErrorView, ConfigView, LoadedView, StoreView};
use crate::errors::{malformed, ErrorCategory, ErrorReplyView, ErrorView, TransportFault};
use crate::json::{bool_in, JsonView};
use crate::startup::{
    bare, listed_hosts, reload_outcome, reload_run, reload_step, renew_outcome, renew_run, renew_step,
    ReloadEvent, RenewAction, RenewEvent, RENEW_INTERVAL_SECS,
};
use crate::text::{
    all_in, decimal, joined, lemma_joined_concat, lemma_padded, lemma_padded_end,
    lemma_pieces_concat, lemma_pieces_joined, lemma_pieces_some, lemma_pieces_trimmed,
    lemma_trim_keeps, lemma_trim_keeps_others, lemma_trimmed, lemma_trimmed_end,
    lemma_trimmed_start, pieces, trimmed, trimmed_end, trimmed_start, CharClass,
};
use crate::tools::{
    all_named, clean, covers, doubled, get_first, get_reply, list_first, list_reply, nameless,
    permits, slashes_at, sound, validated, validated_get,
};
use crate::vault::{
    get_answer, list_address, list_answer, read_address, renew_address, renew_answer, renew_asked,
    status_address, status_answer, status_asked, status_error, Method, Reply, Response,
};

verus! {

/// A path that is not clean is refused whatever the allowlist, by every tool that
/// takes one, and no request is made for it.
pub proof fn law_unclean_paths_are_refused(loaded: LoadedView, path: Seq<char>)
    requires
        !clean(path),
    ensures
        validated(loaded.config.allowlist, path) == Err::<Seq<char>, ErrorView>(ErrorView::BadPath),
        validated_get(loaded.config.allowlist, path) == Err::<Seq<char>, ErrorView>(
            ErrorView::BadPath,
        ),
        get_first(loaded, path) is Err,
        list_first(loaded, path) is Err,
{
}

/// A path with a control character anywhere is refused, whatever the allowlist.
pub proof fn law_control_characters_are_refused(allowlist: Seq<Seq<char>>, path: Seq<char>, i: int)
    requires
        0 <= i < path.len(),
        CharClass::Control.has(path[i]),
    ensures
        validated(allowlist, path) == Err::<Seq<char>, ErrorView>(ErrorView::BadPath),
        validated_get(allowlist, path) == Err::<Seq<char>, ErrorView>(ErrorView::BadPath),
{
    let c = path[i];
    lemma_trim_keeps_others(path, CharClass::Slash, c);
    lemma_trim_keeps_others(trimmed_start(path, CharClass::Slash), CharClass::Slash, c);
    let stripped = trimmed(path, CharClass::Slash);
    let j = choose|j: int| 0 <= j < stripped.len() && stripped[j] == c;
    assert(CharClass::Control.has(stripped[j]));
}

/// A path with `.` or `..` as a segment anywhere is refused, whatever the allowlist.
pub proof fn law_dot_segments_are_refused(allowlist: Seq<Seq<char>>, path: Seq<char>, i: int)
    requires
        0 <= i < pieces(path, '/').len(),
        pieces(path, '/')[i] == seq!['.'] || pieces(path, '/')[i] == seq!['.', '.'],
    ensures
        validated(allowlist, path) == Err::<Seq<char>, ErrorView>(ErrorView::BadPath),
        validated_get(allowlist, path) == Err::<Seq<char>, ErrorView>(ErrorView::BadPath),
{
    let segment = pieces(path, '/')[i];
    assert(segment.len() > 0);
    lemma_segments_stay(path, i);
    assert(nameless(segment));
}

/// A path with two slashes in a row anywhere, at its ends too, is refused, whatever
/// the allowlist.
pub proof fn law_double_slashes_are_refused(allowlist: Seq<Seq<char>>, path: Seq<char>, i: int)
    requires
        0 <= i < path.len() - 1,
        path[i] == '/',
        path[i + 1] == '/',
    ensures
        validated(allowlist, path) == Err::<Seq<char>, ErrorView>(ErrorView::BadPath),
        validated_get(allowlist, path) == Err::<Seq<char>, ErrorView>(ErrorView::BadPath),
{
    assert(slashes_at(path, i));
}

/// A segment that is not empty is still there without the outer slashes.
proof fn lemma_segments_stay(path: Seq<char>, i: int)
    requires
        0 <= i < pieces(path, '/').len(),
        pieces(path, '/')[i].len() > 0,
    ensures
        trimmed(path, CharClass::Slash).len() > 0,
        exists|j: int|
            0 <= j < pieces(trimmed(path, CharClass::Slash), '/').len() && #[trigger] pieces(
                trimmed(path, CharClass::Slash),
                '/',
            )[j] == pieces(path, '/')[i],
{
    let n = lemma_pieces_trimmed(path);
    let inner = pieces(trimmed(path, CharClass::Slash), '/');
    let j = i - n.0;
    assert(0 <= j < inner.len());
    assert(inner[j] == pieces(path, '/')[i]);
}

/// An accepted path is the given one, which has no double slash, without the slash
/// that may stand at either end: sound, permitted, and with no slash at either end.
pub proof fn law_accepted_paths(allowlist: Seq<Seq<char>>, path: Seq<char>)
    requires
        validated(allowlist, path) is Ok,
    ensures
        !doubled(path),
        path.len() <= validated(allowlist, path)->Ok_0.len() + 2,
        validated(allowlist, path)->Ok_0 == trimmed(path, CharClass::Slash),
        sound(validated(allowlist, path)->Ok_0),
        permits(allowlist, validated(allowlist, path)->Ok_0),
        validated(allowlist, path)->Ok_0.len() > 0 ==> {
            &&& validated(allowlist, path)->Ok_0.first() != '/'
            &&& validated(allowlist, path)->Ok_0.last() != '/'
        },
{
    lemma_trimmed(path, CharClass::Slash);
    lemma_undoubled(path);
}

/// Without a double slash, trimming takes at most one slash from either end, and
/// leaves no double slash.
proof fn lemma_undoubled(path: Seq<char>)
    requires
        !doubled(path),
    ensures
        path.len() <= trimmed(path, CharClass::Slash).len() + 2,
        !doubled(trimmed(path, CharClass::Slash)),
{
    let mid = trimmed_start(path, CharClass::Slash);
    let stripped = trimmed(path, CharClass::Slash);
    reveal_with_fuel(trimmed_start, 3);
    reveal_with_fuel(trimmed_end, 3);
    lemma_trimmed_start(path, CharClass::Slash);
    lemma_trimmed_end(mid, CharClass::Slash);
    let cut = path.len() - mid.len();
    if path.len() > 1 {
        assert(!slashes_at(path, 0));
        assert(!slashes_at(path, path.len() - 2));
        assert(path.drop_first().first() == path[1]);
    }
    if mid.len() > 1 {
        assert(mid.last() == path.last());
        assert(mid.drop_last().last() == path[path.len() - 2]);
    }
    assert forall|i: int| !#[trigger] slashes_at(stripped, i) by {
        if slashes_at(stripped, i) {
            assert(stripped[i] == mid[i] && stripped[i + 1] == mid[i + 1]);
            assert(slashes_at(path, cut + i));
        }
    }
}

/// Accepting an accepted path again changes nothing.
pub proof fn law_validation_is_idempotent(allowlist: Seq<Seq<char>>, path: Seq<char>)
    requires
        validated(allowlist, path) is Ok,
    ensures
        validated(allowlist, validated(allowlist, path)->Ok_0) == validated(allowlist, path),
{
    lemma_trimmed(path, CharClass::Slash);
    lemma_trim_keeps(trimmed(path, CharClass::Slash), CharClass::Slash);
    lemma_undoubled(path);
}

/// A slash in front of a path or behind it, that makes no double slash, changes
/// neither the decision on it nor the accepted path.
pub proof fn law_outer_slashes_of_a_path(
    allowlist: Seq<Seq<char>>,
    front: Seq<char>,
    path: Seq<char>,
    back: Seq<char>,
)
    requires
        front.len() <= 1,
        back.len() <= 1,
        all_in(front, CharClass::Slash),
        all_in(back, CharClass::Slash),
        !doubled(front + path + back),
    ensures
        validated(allowlist, front + path + back) == validated(allowlist, path),
        validated_get(allowlist, front + path + back) == validated_get(allowlist, path),
{
    let whole = front + path + back;
    lemma_padded(front, path, back, CharClass::Slash);
    assert forall|i: int| !#[trigger] slashes_at(path, i) by {
        if slashes_at(path, i) {
            assert(slashes_at(whole, front.len() + i));
        }
    }
}

/// The root may be written as the empty path or as one slash.
pub proof fn law_the_root_is_empty_or_a_slash(allowlist: Seq<Seq<char>>)
    ensures
        validated(allowlist, seq!['/']) == validated(allowlist, Seq::empty()),
        validated(Seq::empty(), seq!['/']) == Ok::<Seq<char>, ErrorView>(Seq::empty()),
{
    let nothing = Seq::<char>::empty();
    assert(seq!['/'] + nothing + nothing =~= seq!['/']);
    lemma_padded(seq!['/'], nothing, nothing, CharClass::Slash);
    assert(trimmed(nothing, CharClass::Slash) =~= nothing);
    assert(forall|i: int| !#[trigger] slashes_at(nothing, i));
    assert(forall|i: int| !#[trigger] slashes_at(seq!['/'], i));
}

/// Slashes behind the server's address, and around a path, change no address.
pub proof fn law_outer_slashes_of_an_address(
    addr: Seq<char>,
    tail: Seq<char>,
    front: Seq<char>,
    path: Seq<char>,
    back: Seq<char>,
)
    requires
        all_in(tail, CharClass::Slash),
        all_in(front, CharClass::Slash),
        all_in(back, CharClass::Slash),
    ensures
        read_address(addr + tail, front + path + back) == read_address(addr, path),
        list_address(addr + tail, front + path + back) == list_address(addr, path),
        status_address(addr + tail) == status_address(addr),
        renew_address(addr + tail) == renew_address(addr),
{
    lemma_padded_end(addr, tail, CharClass::Slash);
    lemma_padded(front, path, back, CharClass::Slash);
}

/// Two secrets, or two folders, have the same address only if their paths are the
/// same without outer slashes.
pub proof fn law_addresses_tell_paths_apart(addr: Seq<char>, path: Seq<char>, other: Seq<char>)
    ensures
        read_address(addr, path) == read_address(addr, other) <==> trimmed(path, CharClass::Slash)
            == trimmed(other, CharClass::Slash),
        list_address(addr, path) == list_address(addr, other) <==> trimmed(path, CharClass::Slash)
            == trimmed(other, CharClass::Slash),
{
    let a = trimmed(path, CharClass::Slash);
    let b = trimmed(other, CharClass::Slash);
    let data = trimmed_end(addr, CharClass::Slash) + "/v1/secret/data/"@;
    let metadata = trimmed_end(addr, CharClass::Slash) + "/v1/secret/metadata/"@;
    assert((data + a).skip(data.len() as int) =~= a);
    assert((data + b).skip(data.len() as int) =~= b);
    assert((metadata + a).skip(metadata.len() as int) =~= a);
    assert((metadata + b).skip(metadata.len() as int) =~= b);
}

/// No secret has the address of a folder.
pub proof fn law_secrets_and_folders_lie_apart(addr: Seq<char>, path: Seq<char>, other: Seq<char>)
    ensures
        read_address(addr, path) != list_address(addr, other),
{
    reveal_strlit("/v1/secret/data/");
    reveal_strlit("/v1/secret/metadata/");
    let at = trimmed_end(addr, CharClass::Slash).len() as int + 11;
    assert(read_address(addr, path)[at] == 'd');
    assert(list_address(addr, other)[at] == 'm');
}

/// With an empty allowlist every clean path is accepted: the token's policy decides.
pub proof fn law_empty_allowlist(path: Seq<char>)
    requires
        clean(path),
    ensures
        validated(Seq::empty(), path) == Ok::<Seq<char>, ErrorView>(
            trimmed(path, CharClass::Slash),
        ),
{
}

/// A prefix covers a path exactly where its segments are the first segments of the
/// path: matching goes by whole segments.
pub proof fn law_prefixes_match_by_segment(prefix: Seq<char>, path: Seq<char>)
    ensures
        covers(prefix, path) <==> pieces(prefix, '/').is_prefix_of(pieces(path, '/')),
{
    let xs = pieces(prefix, '/');
    let all = pieces(path, '/');
    lemma_pieces_some(prefix, '/');
    lemma_pieces_joined(prefix, '/');
    lemma_pieces_joined(path, '/');
    if path == prefix {
        assert(xs =~= all.subrange(0, xs.len() as int));
    } else if covers(prefix, path) {
        let rest = path.skip(prefix.len() as int + 1);
        assert(path =~= prefix.push('/') + rest);
        lemma_pieces_concat(prefix, rest, '/');
        assert(xs =~= all.subrange(0, xs.len() as int));
    } else if xs.is_prefix_of(all) {
        let rest = all.skip(xs.len() as int);
        assert(all =~= xs + rest);
        if rest.len() == 0 {
            assert(all =~= xs);
        } else {
            lemma_joined_concat(xs, rest, '/');
            assert(path == prefix.push('/') + joined(rest, '/'));
            assert(prefix.push('/') =~= path.subrange(0, prefix.len() as int + 1));
        }
    }
}

/// A prefix covers itself and everything below it, but no name that merely starts
/// like its last segment.
pub proof fn law_siblings_are_not_covered(prefix: Seq<char>, more: Seq<char>)
    ensures
        covers(prefix, prefix),
        covers(prefix, prefix.push('/') + more),
        more.len() > 0 && more.first() != '/' ==> !covers(prefix, prefix + more),
{
    let below = prefix.push('/') + more;
    assert(prefix.push('/') =~= below.subrange(0, prefix.len() as int + 1));
    if more.len() > 0 && more.first() != '/' && covers(prefix, prefix + more) {
        assert((prefix + more).len() != prefix.len());
        assert(prefix.push('/')[prefix.len() as int] == '/');
        assert((prefix + more).subrange(0, prefix.len() as int + 1)[prefix.len() as int] == more.first());
    }
}

/// A longer allowlist lets through whatever a shorter one does that is not empty.
pub proof fn law_longer_allowlists_permit_more(
    shorter: Seq<Seq<char>>,
    longer: Seq<Seq<char>>,
    path: Seq<char>,
)
    requires
        shorter.len() > 0,
        forall|i: int| 0 <= i < shorter.len() ==> longer.contains(#[trigger] shorter[i]),
        validated(shorter, path) is Ok,
    ensures
        validated(longer, path) == validated(shorter, path),
{
    let stripped = trimmed(path, CharClass::Slash);
    let i = choose|i: int|
        0 <= i < shorter.len() && covers(trimmed(#[trigger] shorter[i], CharClass::Slash), stripped);
    assert(longer.contains(shorter[i]));
    let j = choose|j: int| 0 <= j < longer.len() && longer[j] == shorter[i];
    assert(covers(trimmed(longer[j], CharClass::Slash), stripped));
}

/// A read addresses a secret below `/v1/secret/data/` on the configured server, by
/// an accepted path in which every segment has a name, and carries the token.
pub proof fn law_reads_stay_below_the_data_mount(loaded: LoadedView, path: Seq<char>)
    requires
        get_first(loaded, path) is Ok,
    ensures
        get_first(loaded, path)->Ok_0.method == Method::Get,
        get_first(loaded, path)->Ok_0.token == Some(loaded.token),
        get_first(loaded, path)->Ok_0.url == trimmed_end(loaded.config.addr, CharClass::Slash)
            + "/v1/secret/data/"@ + trimmed(path, CharClass::Slash),
        trimmed(path, CharClass::Slash).len() > 0,
        all_named(pieces(trimmed(path, CharClass::Slash), '/')),
        permits(loaded.config.allowlist, trimmed(path, CharClass::Slash)),
{
    lemma_trimmed(path, CharClass::Slash);
    lemma_trim_keeps(trimmed(path, CharClass::Slash), CharClass::Slash);
}

/// A listing addresses a folder below `/v1/secret/metadata/` on the configured
/// server, by an accepted path: the root, or one in which every segment has a name.
pub proof fn law_lists_stay_below_the_metadata_mount(loaded: LoadedView, path: Seq<char>)
    requires
        list_first(loaded, path) is Ok,
    ensures
        list_first(loaded, path)->Ok_0.method == Method::List,
        list_first(loaded, path)->Ok_0.token == Some(loaded.token),
        list_first(loaded, path)->Ok_0.url == trimmed_end(loaded.config.addr, CharClass::Slash)
            + "/v1/secret/metadata/"@ + trimmed(path, CharClass::Slash),
        trimmed(path, CharClass::Slash).len() > 0 ==> all_named(
            pieces(trimmed(path, CharClass::Slash), '/'),
        ),
        permits(loaded.config.allowlist, trimmed(path, CharClass::Slash)),
{
    lemma_trimmed(path, CharClass::Slash);
    lemma_trim_keeps(trimmed(path, CharClass::Slash), CharClass::Slash);
}

/// The tools only read: no request of theirs posts, whatever they are asked. The
/// one request that posts is the renewal, and it takes no path.
pub proof fn law_tools_only_read(loaded: LoadedView, path: Seq<char>)
    ensures
        status_asked(loaded).method == Method::Get,
        get_first(loaded, path) is Ok ==> get_first(loaded, path)->Ok_0.method == Method::Get,
        list_first(loaded, path) is Ok ==> list_first(loaded, path)->Ok_0.method == Method::List,
        renew_asked(loaded).url == trimmed_end(loaded.config.addr, CharClass::Slash)
            + "/v1/auth/token/renew-self"@,
{
}

/// The health probe carries no token.
pub proof fn law_the_probe_is_anonymous(loaded: LoadedView)
    ensures
        status_asked(loaded).token is None,
{
}

/// Where a path is refused and no request is made, the caller gets the refusal that
/// stands in place of the request, whatever else is at hand.
pub proof fn law_refused_without_asking(
    loaded: LoadedView,
    path: Seq<char>,
    field: Option<Seq<char>>,
    reply: Reply,
)
    ensures
        get_first(loaded, path) is Err ==> get_reply(loaded.config.allowlist, path, field, reply)
            == Err::<Seq<char>, ErrorReplyView>(ErrorView::BadPath.reply()),
        list_first(loaded, path) is Err ==> list_reply(loaded.config.allowlist, path, reply)
            == Err::<Seq<char>, ErrorReplyView>(ErrorView::BadPath.reply()),
        ErrorView::BadPath.reply().category == ErrorCategory::InvalidParams,
{
}

/// What the caller gets for an accepted path depends on the field and on what Vault
/// replied, and on nothing else: neither a result nor an error tells of the path,
/// the token, the address or the allowlist.
pub proof fn law_replies_do_not_leak(
    loaded: LoadedView,
    path: Seq<char>,
    other: LoadedView,
    other_path: Seq<char>,
    field: Option<Seq<char>>,
    reply: Reply,
)
    ensures
        get_first(loaded, path) is Ok && get_first(other, other_path) is Ok ==> get_reply(
            loaded.config.allowlist,
            path,
            field,
            reply,
        ) == get_reply(other.config.allowlist, other_path, field, reply),
        list_first(loaded, path) is Ok && list_first(other, other_path) is Ok ==> list_reply(
            loaded.config.allowlist,
            path,
            reply,
        ) == list_reply(other.config.allowlist, other_path, reply),
        get_first(loaded, path) is Err && get_first(other, other_path) is Err ==> get_first(
            loaded,
            path,
        ) == get_first(other, other_path),
        list_first(loaded, path) is Err && list_first(other, other_path) is Err ==> list_first(
            loaded,
            path,
        ) == list_first(other, other_path),
{
}

/// A broken exchange is told by one of five fixed texts.
pub proof fn law_transport_texts_are_fixed(fault: TransportFault)
    ensures
        fault.error() == ErrorView::Network("timeout"@) || fault.error() == ErrorView::Network(
            "connect failed"@,
        ) || fault.error() == ErrorView::Network("request failed"@) || fault.error()
            == ErrorView::Network("transport error"@) || fault.error() == malformed(),
{
}

/// Whether an error tells nothing beyond its kind but a fixed text, or a fixed text
/// and an HTTP status.
pub open spec fn fixed(err: ErrorView) -> bool {
    match err {
        ErrorView::Network(detail) => {
            ||| detail == "timeout"@
            ||| detail == "connect failed"@
            ||| detail == "request failed"@
            ||| detail == "transport error"@
        },
        ErrorView::Internal(detail) => {
            ||| detail == "vault response malformed"@
            ||| detail == "vault unavailable"@
            ||| detail == "vault rejected request"@
            ||| exists|status: u16|
                detail == "vault returned "@ + #[trigger] decimal(status as nat)
            ||| exists|status: u16|
                detail == "seal-status returned "@ + #[trigger] decimal(status as nat)
        },
        _ => true,
    }
}

/// Whatever Vault replied, an error that comes of it tells nothing but its kind, a
/// fixed text, and at most the HTTP status: no path, no token, no header, no
/// address, and nothing of the reply's body.
pub proof fn law_errors_echo_nothing(reply: Reply, field: Option<Seq<char>>)
    ensures
        status_answer(reply) matches Err(err) ==> fixed(err),
        get_answer(reply, field) matches Err(err) ==> fixed(err),
        list_answer(reply) matches Err(err) ==> fixed(err),
        renew_answer(reply) matches Err(err) ==> fixed(err),
{
    match reply {
        Ok(response) => {
            let shown = decimal(response.status as nat);
            assert(fixed(ErrorView::Internal("vault returned "@ + shown)));
            assert(fixed(ErrorView::Internal("seal-status returned "@ + shown)));
        },
        Err(_) => {},
    }
}

/// The errors that stand for a status are told apart by it: forbidden is 403, not
/// found is 404, sealed is 503 with the flag in the body; anything else is internal.
pub proof fn law_statuses_are_told_apart(status: u16, body: Option<JsonView>)
    ensures
        status_error(status, body) is Forbidden <==> status == 403,
        status_error(status, body) is NotFound <==> status == 404,
        status_error(status, body) is Sealed <==> status == 503 && body is Some && bool_in(
            body->0.member("sealed"@),
        ) == Some(true),
        status_error(status, body) is Sealed ==> status_error(status, body) == (ErrorView::Sealed {
            will_retry: true,
        }),
        !(status_error(status, body) is BadPath),
        !(status_error(status, body) is Network),
{
}

/// A leaf and a missing folder answer a listing alike, as a missing secret answers
/// a read: with 404, hence with not found, whatever the body holds.
pub proof fn law_missing_is_not_found(response: Response, field: Option<Seq<char>>)
    requires
        response.status == 404,
    ensures
        list_answer(Ok(response)) == Err::<Seq<Seq<char>>, ErrorView>(ErrorView::NotFound),
        get_answer(Ok(response), field) == Err::<Map<Seq<char>, Seq<char>>, ErrorView>(
            ErrorView::NotFound,
        ),
{
}

/// Naming a field gives its value out of the pairs that are there without naming
/// one: as it is, as plain text; where the field is missing, not found.
pub proof fn law_a_field_is_one_of_the_pairs(
    allowlist: Seq<Seq<char>>,
    path: Seq<char>,
    field: Seq<char>,
    reply: Reply,
)
    requires
        validated_get(allowlist, path) is Ok,
        get_answer(reply, None) is Ok,
    ensures
        ({
            let pairs = get_answer(reply, None)->Ok_0;
            &&& pairs.contains_key(field) ==> get_answer(reply, Some(field)) == Ok::<
                Map<Seq<char>, Seq<char>>,
                ErrorView,
            >(Map::empty().insert(field, pairs[field]))
            &&& pairs.contains_key(field) ==> get_reply(allowlist, path, Some(field), reply)
                == Ok::<Seq<char>, ErrorReplyView>(pairs[field])
            &&& !pairs.contains_key(field) ==> get_reply(allowlist, path, Some(field), reply)
                == Err::<Seq<char>, ErrorReplyView>(ErrorView::NotFound.reply())
        }),
{
}

/// Where no pairs come of a reply, naming a field does not change the error.
pub proof fn law_errors_do_not_depend_on_the_field(reply: Reply, field: Option<Seq<char>>)
    requires
        get_answer(reply, None) is Err,
    ensures
        get_answer(reply, field) == get_answer(reply, None),
{
}

/// Two errors have the same tag exactly where they are of the same variant.
pub proof fn law_tags_are_distinct(a: ErrorView, b: ErrorView)
    ensures
        a.kind() == b.kind() <==> {
            ||| a is NotFound && b is NotFound
            ||| a is Forbidden && b is Forbidden
            ||| a is Sealed && b is Sealed
            ||| a is BadPath && b is BadPath
            ||| a is Network && b is Network
            ||| a is Internal && b is Internal
        },
{
    reveal_strlit("NotFound");
    reveal_strlit("Forbidden");
    reveal_strlit("Sealed");
    reveal_strlit("BadPath");
    reveal_strlit("Network");
    reveal_strlit("Internal");
    assert("BadPath"@[0] == 'B' && "Network"@[0] == 'N');
    assert("NotFound"@[0] == 'N' && "Internal"@[0] == 'I');
    assert("NotFound"@.len() == 8 && "Internal"@.len() == 8);
    assert("BadPath"@.len() == 7 && "Network"@.len() == 7);
    assert("Sealed"@.len() == 6 && "Forbidden"@.len() == 9);
}

/// Every error reply carries the tag, and that of a sealed Vault, no other, whether
/// waiting helps.
pub proof fn law_error_data(err: ErrorView)
    ensures
        err.reply().data.member("kind"@) == Some(JsonView::Text(err.kind())),
        err matches ErrorView::Sealed { will_retry } ==> err.reply().data.member("will_retry"@)
            == Some(JsonView::Bool(will_retry)),
        !(err is Sealed) ==> err.reply().data.member("will_retry"@) is None,
{
    reveal_strlit("kind");
    reveal_strlit("will_retry");
    assert("kind"@.len() != "will_retry"@.len());
}

/// A configuration passes the check exactly where it is usable.
pub proof fn law_checked_is_usable(config: ConfigView)
    ensures
        config.checked() is Ok <==> config.usable(),
        config.checked() is Ok ==> config.checked()->Ok_0 == config,
{
}

/// A usable configuration and a token file's text make a usable snapshot, or none.
pub proof fn law_loaded_is_usable(config: ConfigView, text: Result<Seq<char>, Seq<char>>)
    requires
        config.usable(),
        with_token(config, text) is Ok,
    ensures
        with_token(config, text)->Ok_0.usable(),
        with_token(config, text)->Ok_0.config == config,
{
    lemma_trimmed(text->Ok_0, CharClass::Whitespace);
}

/// A store stays usable, at its path, through every reload, and a failed one leaves
/// it as it was.
pub proof fn law_reloads_keep_the_store_usable(
    store: StoreView,
    config: ConfigView,
    text: Result<Seq<char>, Seq<char>>,
    err: ConfigErrorView,
)
    requires
        store.current.usable(),
        config.usable(),
    ensures
        reloaded(store, with_token(config, text)).current.usable(),
        reloaded(store, with_token(config, text)).path == store.path,
        with_token(config, text) is Ok ==> reloaded(store, with_token(config, text)).current
            == with_token(config, text)->Ok_0,
        reloaded(store, Err(err)) == store,
{
    if with_token(config, text) is Ok {
        law_loaded_is_usable(config, text);
    }
}

/// The hosts of a list are those between its commas, bare, none of them empty.
pub proof fn law_listed_hosts_are_bare(list: Seq<char>)
    ensures
        forall|i: int|
            0 <= i < listed_hosts(list).len() ==> {
                let host = #[trigger] listed_hosts(list)[i];
                &&& host.len() > 0
                &&& !CharClass::Whitespace.has(host.first())
                &&& !CharClass::Whitespace.has(host.last())
                &&& exists|j: int|
                    0 <= j < pieces(list, ',').len() && host == bare(
                        #[trigger] pieces(list, ',')[j],
                    )
            },
{
    let bared = pieces(list, ',').map_values(|host: Seq<char>| bare(host));
    let filled = |host: Seq<char>| host.len() > 0;
    assert forall|i: int| 0 <= i < listed_hosts(list).len() implies ({
        let host = #[trigger] listed_hosts(list)[i];
        &&& host.len() > 0
        &&& !CharClass::Whitespace.has(host.first())
        &&& !CharClass::Whitespace.has(host.last())
        &&& exists|j: int|
            0 <= j < pieces(list, ',').len() && host == bare(#[trigger] pieces(list, ',')[j])
    }) by {
        let host = listed_hosts(list)[i];
        assert(bared.filter(filled).contains(host));
        bared.lemma_filter_contains_rev(filled, host);
        let j = choose|j: int| 0 <= j < bared.len() && bared[j] == host;
        assert(host == bare(pieces(list, ',')[j]));
        lemma_trimmed(pieces(list, ',')[j], CharClass::Whitespace);
        bared.lemma_filter_pred(filled, i);
    }
}

/// In every run of the task that renews the token each attempt directly follows a
/// sleep of a day: the client is built right after one, and the renewal is asked for
/// right after that. No sleep is of another length, and after whatever came of an
/// attempt the next sleep begins.
pub proof fn law_renewals_are_a_day_apart(events: Seq<RenewEvent>, i: int)
    requires
        renew_run(events),
        0 <= i < events.len(),
    ensures
        renew_step(events[i]) is BuildClient ==> i >= 1 && renew_step(events[i - 1])
            == (RenewAction::Sleep { seconds: RENEW_INTERVAL_SECS }),
        renew_step(events[i]) is Renew ==> i >= 2 && renew_step(events[i - 1]) is BuildClient
            && renew_step(events[i - 2]) == (RenewAction::Sleep { seconds: RENEW_INTERVAL_SECS }),
        renew_step(events[i]) is Sleep ==> renew_step(events[i]) == (RenewAction::Sleep {
            seconds: RENEW_INTERVAL_SECS,
        }),
        i >= 1 && renew_step(events[i - 1]) is Renew ==> renew_step(events[i]) is Sleep,
        i >= 1 && renew_step(events[i - 1]) is Sleep ==> renew_step(events[i]) is BuildClient,
        i >= 1 && renew_step(events[i - 1]) is BuildClient ==> renew_step(events[i]) is Renew
            || renew_step(events[i]) is Sleep,
{
    if i >= 1 {
        assert(renew_outcome(renew_step(events[i - 1]), events[i]));
    }
    if i >= 2 {
        assert(renew_outcome(renew_step(events[i - 2]), events[i - 1]));
    }
}

/// In every run of the task that reloads the configuration a reload comes exactly on
/// each signal, and the task then waits for the next one, whether the reload went
/// well or not. Only a handler that closed, or could not be put in place, ends the
/// task, and nothing happens after that.
pub proof fn law_reloads_come_on_signals(events: Seq<ReloadEvent>, i: int)
    requires
        reload_run(events),
        0 <= i < events.len(),
    ensures
        reload_step(events[i]) is Reload <==> events[i] is Signalled,
        reload_step(events[i]) is Stop <==> events[i] is Closed || events[i] is InstallFailed,
        reload_step(events[i]) is Stop ==> i == events.len() - 1,
        events[i] is Signalled ==> i >= 1 && reload_step(events[i - 1]) is AwaitSignal,
        events[i] is Reloaded || events[i] is ReloadFailed ==> i >= 1 && events[i - 1] is Signalled
            && reload_step(events[i]) is AwaitSignal,
        events[i] is InstallFailed ==> i == 0,
{
    if i >= 1 {
        assert(reload_outcome(reload_step(events[i - 1]), events[i]));
    }
    if i + 1 < events.len() {
        assert(reload_outcome(reload_step(events[i]), events[i + 1]));
    }
}

} // verus!
