use kytti::config::{KyttiConfig, Loaded, SecuritySection, ServerSection, VaultSection};
use kytti::startup::{
    bind_address, env_or, host_policy, mode, reload_next, renew_next, HostPolicy, Mode,
    ReloadAction, ReloadEvent, RenewAction, RenewEvent, RENEW_INTERVAL_SECS,
};

fn asked(args: &[&str]) -> Mode {
    mode(&args.iter().map(|s| s.to_string()).collect())
}

fn loaded(bind: &str) -> Loaded {
    Loaded {
        config: KyttiConfig {
            vault: VaultSection {
                addr: "http://h".into(),
                token_path: "t".into(),
            },
            server: ServerSection { bind: bind.into() },
            security: SecuritySection::default(),
        },
        token: "t".into(),
    }
}

#[test]
fn arguments_choose_the_mode() {
    assert_eq!(asked(&[]), Mode::Http);
    assert_eq!(asked(&["x"]), Mode::Http);
    assert_eq!(asked(&["--help"]), Mode::Help);
    assert_eq!(asked(&["-h", "--version"]), Mode::Help);
    assert_eq!(asked(&["--version"]), Mode::Version);
    assert_eq!(asked(&["-V", "--help"]), Mode::Version);
    assert_eq!(asked(&["--stdio"]), Mode::Stdio);
    assert_eq!(asked(&["x", "--stdio"]), Mode::Stdio);
    assert_eq!(asked(&["--stdio", "--help"]), Mode::Stdio);
    assert_eq!(asked(&["x", "--help"]), Mode::Http);
    assert_eq!(asked(&["--help", "--stdio"]), Mode::Help);
}

#[test]
fn the_environment_wins() {
    assert_eq!(env_or(Some("a".to_string()), "b"), "a");
    assert_eq!(env_or(Some(String::new()), "b"), "");
    assert_eq!(env_or(None, "b"), "b");
    assert_eq!(bind_address(None, &loaded("1.2.3.4:5")), "1.2.3.4:5");
    assert_eq!(
        bind_address(Some("0.0.0.0:1".to_string()), &loaded("1.2.3.4:5")),
        "0.0.0.0:1"
    );
}

#[test]
fn hosts_follow_the_setting() {
    assert!(matches!(host_policy(None), HostPolicy::Default));
    assert!(matches!(host_policy(Some("*")), HostPolicy::Any));
    assert!(matches!(host_policy(Some(" *\n")), HostPolicy::Any));
    for (setting, wanted) in [
        ("localhost,127.0.0.1,::1", vec!["localhost", "127.0.0.1", "::1"]),
        (" a , ,b,, c\t", vec!["a", "b", "c"]),
        ("*,a", vec!["*", "a"]),
        ("", vec![]),
        (" , ", vec![]),
    ] {
        match host_policy(Some(setting)) {
            HostPolicy::Only(hosts) => assert_eq!(hosts, wanted),
            other => panic!("expected Only, got {other:?}"),
        }
    }
}

#[test]
fn renewal_goes_on_day_after_day() {
    let day = RenewAction::Sleep { seconds: 86400 };
    assert_eq!(RENEW_INTERVAL_SECS, 24 * 3600);
    assert_eq!(renew_next(RenewEvent::Started), day);
    assert_eq!(renew_next(RenewEvent::Slept), RenewAction::BuildClient);
    assert_eq!(renew_next(RenewEvent::ClientBuilt), RenewAction::Renew);
    assert_eq!(renew_next(RenewEvent::ClientFailed), day);
    assert_eq!(renew_next(RenewEvent::Renewed { seconds: 7 }), day);
    assert_eq!(renew_next(RenewEvent::RenewFailed), day);
}

#[test]
fn reloading_goes_on_while_signals_come() {
    assert_eq!(reload_next(ReloadEvent::Installed), ReloadAction::AwaitSignal);
    assert_eq!(reload_next(ReloadEvent::InstallFailed), ReloadAction::Stop);
    assert_eq!(reload_next(ReloadEvent::Signalled), ReloadAction::Reload);
    assert_eq!(reload_next(ReloadEvent::Reloaded), ReloadAction::AwaitSignal);
    assert_eq!(reload_next(ReloadEvent::ReloadFailed), ReloadAction::AwaitSignal);
    assert_eq!(reload_next(ReloadEvent::Closed), ReloadAction::Stop);
}

#[test]
fn a_run_of_renewals_sleeps_before_each_attempt() {
    let came = [
        RenewEvent::Started,
        RenewEvent::Slept,
        RenewEvent::ClientFailed,
        RenewEvent::Slept,
        RenewEvent::ClientBuilt,
        RenewEvent::RenewFailed,
        RenewEvent::Slept,
        RenewEvent::ClientBuilt,
        RenewEvent::Renewed { seconds: 1 },
    ];
    let actions: Vec<RenewAction> = came.iter().map(|e| renew_next(*e)).collect();
    let day = RenewAction::Sleep { seconds: 86400 };
    for (i, action) in actions.iter().enumerate() {
        if *action == RenewAction::BuildClient {
            assert_eq!(actions[i - 1], day);
        }
    }
    assert_eq!(actions[8], day);
}

#[test]
fn a_run_of_reloads_answers_each_signal() {
    let came = [
        ReloadEvent::Installed,
        ReloadEvent::Signalled,
        ReloadEvent::ReloadFailed,
        ReloadEvent::Signalled,
        ReloadEvent::Reloaded,
        ReloadEvent::Closed,
    ];
    let actions: Vec<ReloadAction> = came.iter().map(|e| reload_next(*e)).collect();
    assert_eq!(
        actions,
        vec![
            ReloadAction::AwaitSignal,
            ReloadAction::Reload,
            ReloadAction::AwaitSignal,
            ReloadAction::Reload,
            ReloadAction::AwaitSignal,
            ReloadAction::Stop,
        ]
    );
}
