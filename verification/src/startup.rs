//! What the program decides when it starts, and in its background tasks.

use vstd::prelude::*;
use vstd::string::*;

use crate::config::Loaded;
use crate::text::{pieces, same, split, texts, trim, trimmed, CharClass};
use crate::vault::optional;

verus! {

/// What the program was started for.
#[derive(Clone, Copy, Debug, PartialEq, Eq, Structural)]
pub enum Mode {
    /// Show the usage and exit.
    Help,
    /// Show the version and exit.
    Version,
    /// Serve over standard input and output.
    Stdio,
    /// Serve over HTTP.
    Http,
}

/// What the arguments (without the program's name) ask for. Help and version count
/// as the first argument only, `--stdio` anywhere.
pub open spec fn asked_mode(args: Seq<Seq<char>>) -> Mode {
    if args.len() > 0 && (args[0] == "--help"@ || args[0] == "-h"@) {
        Mode::Help
    } else if args.len() > 0 && (args[0] == "--version"@ || args[0] == "-V"@) {
        Mode::Version
    } else if args.contains("--stdio"@) {
        Mode::Stdio
    } else {
        Mode::Http
    }
}

/// Tells what the arguments (without the program's name) ask for.
pub fn mode(args: &Vec<String>) -> (asked: Mode)
    ensures
        asked == asked_mode(texts(args@)),
{
    if args.len() > 0 {
        let first = args[0].as_str();
        if same(first, "--help") || same(first, "-h") {
            return Mode::Help;
        }
        if same(first, "--version") || same(first, "-V") {
            return Mode::Version;
        }
    }
    let mut i: usize = 0;
    while i < args.len()
        invariant
            i <= args@.len(),
            args@.len() > 0 ==> texts(args@)[0] != "--help"@ && texts(args@)[0] != "-h"@
                && texts(args@)[0] != "--version"@ && texts(args@)[0] != "-V"@,
            forall|j: int| 0 <= j < i ==> #[trigger] texts(args@)[j] != "--stdio"@,
        decreases args.len() - i,
    {
        if same(args[i].as_str(), "--stdio") {
            proof {
                assert(texts(args@)[i as int] == "--stdio"@);
            }
            return Mode::Stdio;
        }
        i = i + 1;
    }
    Mode::Http
}

/// The text of a setting: that of the environment, where it has one, or else the
/// default.
pub fn env_or(value: Option<String>, default: &str) -> (setting: String)
    ensures
        setting@ == match value {
            Some(text) => text@,
            None => default@,
        },
{
    match value {
        Some(text) => text,
        None => default.to_owned(),
    }
}

/// The address to listen on: the environment wins over the configuration.
pub fn bind_address(value: Option<String>, loaded: &Loaded) -> (bind: String)
    ensures
        bind@ == match value {
            Some(text) => text@,
            None => loaded@.config.bind,
        },
{
    env_or(value, loaded.config.server.bind.as_str())
}

/// Whose `Host` header is accepted.
#[derive(Debug)]
pub enum HostPolicy {
    /// The server's own default, the local host.
    Default,
    /// Any.
    Any,
    /// The hosts listed.
    Only(Vec<String>),
}

/// The model of a host policy.
pub enum HostPolicyView {
    Default,
    Any,
    Only(Seq<Seq<char>>),
}

impl View for HostPolicy {
    type V = HostPolicyView;

    open spec fn view(&self) -> HostPolicyView {
        match self {
            HostPolicy::Default => HostPolicyView::Default,
            HostPolicy::Any => HostPolicyView::Any,
            HostPolicy::Only(hosts) => HostPolicyView::Only(texts(hosts@)),
        }
    }
}

/// `text` without the white space around it.
pub open spec fn bare(text: Seq<char>) -> Seq<char> {
    trimmed(text, CharClass::Whitespace)
}

/// The hosts in a list with commas: bare, and without the empty ones.
pub open spec fn listed_hosts(list: Seq<char>) -> Seq<Seq<char>> {
    pieces(list, ',').map_values(|host: Seq<char>| bare(host)).filter(
        |host: Seq<char>| host.len() > 0,
    )
}

/// The policy that a setting asks for: `*` is any host.
pub open spec fn asked_hosts(setting: Option<Seq<char>>) -> HostPolicyView {
    match setting {
        None => HostPolicyView::Default,
        Some(text) => if bare(text) == "*"@ {
            HostPolicyView::Any
        } else {
            HostPolicyView::Only(listed_hosts(text))
        },
    }
}

/// Tells the policy that a setting asks for.
pub fn host_policy(setting: Option<&str>) -> (policy: HostPolicy)
    ensures
        policy@ == asked_hosts(optional(setting)),
{
    let text = match setting {
        None => return HostPolicy::Default,
        Some(text) => text,
    };
    if same(trim(text, CharClass::Whitespace), "*") {
        return HostPolicy::Any;
    }
    let parts = split(text, ',');
    let mut hosts: Vec<String> = Vec::new();
    let mut i: usize = 0;
    let ghost bared = pieces(text@, ',').map_values(|host: Seq<char>| bare(host));
    let ghost filled = |host: Seq<char>| host.len() > 0;
    proof {
        reveal(Seq::filter);
        assert(texts(hosts@) =~= bared.take(0).filter(filled));
    }
    while i < parts.len()
        invariant
            i <= parts@.len() == bared.len(),
            texts(parts@) == pieces(text@, ','),
            bared == pieces(text@, ',').map_values(|host: Seq<char>| bare(host)),
            filled == (|host: Seq<char>| host.len() > 0),
            texts(hosts@) == bared.take(i as int).filter(filled),
        decreases parts.len() - i,
    {
        let host = trim(parts[i].as_str(), CharClass::Whitespace);
        let ghost before = hosts@;
        proof {
            reveal(Seq::filter);
            assert(texts(parts@)[i as int] == parts@[i as int]@);
            assert(bared[i as int] == host@);
            assert(bared.take(i + 1).drop_last() =~= bared.take(i as int));
        }
        if !host.is_empty() {
            hosts.push(host.to_owned());
            proof {
                assert(texts(hosts@) =~= texts(before).push(host@));
            }
        }
        i = i + 1;
    }
    proof {
        assert(bared.take(i as int) =~= bared);
    }
    HostPolicy::Only(hosts)
}

/// The time between two renewals of the token, in seconds: a day.
pub const RENEW_INTERVAL_SECS: u64 = 86400;

/// What happened to the task that renews the token.
#[derive(Clone, Copy, Debug)]
pub enum RenewEvent {
    Started,
    Slept,
    ClientBuilt,
    ClientFailed,
    Renewed { seconds: u64 },
    RenewFailed,
}

/// What the task that renews the token does next.
#[derive(Clone, Copy, Debug, PartialEq, Eq, Structural)]
pub enum RenewAction {
    Sleep { seconds: u64 },
    BuildClient,
    Renew,
}

/// What the task that renews the token does after an event.
pub open spec fn renew_step(event: RenewEvent) -> RenewAction {
    match event {
        RenewEvent::Slept => RenewAction::BuildClient,
        RenewEvent::ClientBuilt => RenewAction::Renew,
        _ => RenewAction::Sleep { seconds: RENEW_INTERVAL_SECS },
    }
}

/// Whether `event` can come of doing `action`.
pub open spec fn renew_outcome(action: RenewAction, event: RenewEvent) -> bool {
    match action {
        RenewAction::Sleep { .. } => event is Slept,
        RenewAction::BuildClient => event is ClientBuilt || event is ClientFailed,
        RenewAction::Renew => event is Renewed || event is RenewFailed,
    }
}

/// Whether the task that renews the token can see these events, one after the other:
/// its start, and then in each case what came of the action before.
pub open spec fn renew_run(events: Seq<RenewEvent>) -> bool {
    &&& events.len() > 0
    &&& events[0] is Started
    &&& forall|i: int|
        0 < i < events.len() ==> renew_outcome(renew_step(events[i - 1]), #[trigger] events[i])
}

/// What the task that renews the token does next. It never ends: whatever came of
/// an attempt, the next one follows a day later.
pub fn renew_next(event: RenewEvent) -> (action: RenewAction)
    ensures
        action == renew_step(event),
{
    match event {
        RenewEvent::Slept => RenewAction::BuildClient,
        RenewEvent::ClientBuilt => RenewAction::Renew,
        RenewEvent::Started | RenewEvent::ClientFailed | RenewEvent::Renewed { .. }
        | RenewEvent::RenewFailed => RenewAction::Sleep { seconds: RENEW_INTERVAL_SECS },
    }
}

/// What happened to the task that reloads the configuration.
#[derive(Clone, Copy, Debug)]
pub enum ReloadEvent {
    /// The signal handler is in place.
    Installed,
    /// The signal handler could not be put in place.
    InstallFailed,
    /// A signal came.
    Signalled,
    /// No more signals will come.
    Closed,
    /// A reload took place.
    Reloaded,
    /// A reload failed, and the previous snapshot stays.
    ReloadFailed,
}

/// What the task that reloads the configuration does next.
#[derive(Clone, Copy, Debug, PartialEq, Eq, Structural)]
pub enum ReloadAction {
    AwaitSignal,
    Reload,
    Stop,
}

/// What the task that reloads the configuration does after an event.
pub open spec fn reload_step(event: ReloadEvent) -> ReloadAction {
    match event {
        ReloadEvent::Signalled => ReloadAction::Reload,
        ReloadEvent::InstallFailed | ReloadEvent::Closed => ReloadAction::Stop,
        _ => ReloadAction::AwaitSignal,
    }
}

/// Whether `event` can come of doing `action`. Nothing comes of stopping.
pub open spec fn reload_outcome(action: ReloadAction, event: ReloadEvent) -> bool {
    match action {
        ReloadAction::AwaitSignal => event is Signalled || event is Closed,
        ReloadAction::Reload => event is Reloaded || event is ReloadFailed,
        ReloadAction::Stop => false,
    }
}

/// Whether the task that reloads the configuration can see these events, one after
/// the other: whether its handler is in place, and then in each case what came of the
/// action before.
pub open spec fn reload_run(events: Seq<ReloadEvent>) -> bool {
    &&& events.len() > 0
    &&& events[0] is Installed || events[0] is InstallFailed
    &&& forall|i: int|
        0 < i < events.len() ==> reload_outcome(reload_step(events[i - 1]), #[trigger] events[i])
}

/// What the task that reloads the configuration does next. It ends where no signal
/// can come; a failed reload does not end it.
pub fn reload_next(event: ReloadEvent) -> (action: ReloadAction)
    ensures
        action == reload_step(event),
{
    match event {
        ReloadEvent::Signalled => ReloadAction::Reload,
        ReloadEvent::InstallFailed | ReloadEvent::Closed => ReloadAction::Stop,
        ReloadEvent::Installed | ReloadEvent::Reloaded
        | ReloadEvent::ReloadFailed => ReloadAction::AwaitSignal,
    }
}

} // verus!
