//! The configuration and the token, checked, and replaced as one.

use vstd::prelude::*;
use vstd::string::*;

use crate::errors::outcome;
use crate::text::{texts, trim, trimmed, CharClass};

verus! {

/// `[vault]`: where Vault is, and where the token lies.
#[derive(Debug)]
pub struct VaultSection {
    pub addr: String,
    pub token_path: String,
}

impl Clone for VaultSection {
    fn clone(&self) -> (copy: VaultSection)
        ensures
            copy.addr@ == self.addr@,
            copy.token_path@ == self.token_path@,
    {
        VaultSection { addr: self.addr.clone(), token_path: self.token_path.clone() }
    }
}

/// The address to listen on where the configuration names none.
pub fn default_bind() -> (bind: String)
    ensures
        bind@ == "0.0.0.0:6339"@,
{
    "0.0.0.0:6339".to_owned()
}

/// `[server]`: the address to listen on.
#[derive(Debug)]
pub struct ServerSection {
    pub bind: String,
}

impl Clone for ServerSection {
    fn clone(&self) -> (copy: ServerSection)
        ensures
            copy.bind@ == self.bind@,
    {
        ServerSection { bind: self.bind.clone() }
    }
}

impl Default for ServerSection {
    fn default() -> (section: ServerSection)
        ensures
            section.bind@ == "0.0.0.0:6339"@,
    {
        ServerSection { bind: default_bind() }
    }
}

/// `[security]`: the prefixes that a path must have one of, in CLI style (no
/// leading `secret/`, no leading slash). None at all leaves the decision to the
/// token's policy.
#[derive(Debug)]
pub struct SecuritySection {
    pub path_allowlist: Vec<String>,
}

impl Clone for SecuritySection {
    fn clone(&self) -> (copy: SecuritySection)
        ensures
            texts(copy.path_allowlist@) == texts(self.path_allowlist@),
    {
        let mut path_allowlist: Vec<String> = Vec::new();
        let mut i: usize = 0;
        while i < self.path_allowlist.len()
            invariant
                i <= self.path_allowlist@.len(),
                texts(path_allowlist@) == texts(self.path_allowlist@).take(i as int),
            decreases self.path_allowlist.len() - i,
        {
            let ghost before = texts(path_allowlist@);
            path_allowlist.push(self.path_allowlist[i].clone());
            proof {
                let all = texts(self.path_allowlist@);
                assert(texts(path_allowlist@) =~= before.push(all[i as int]));
                assert(all.take(i + 1) =~= all.take(i as int).push(all[i as int]));
            }
            i = i + 1;
        }
        proof {
            let all = texts(self.path_allowlist@);
            assert(all.take(all.len() as int) =~= all);
        }
        SecuritySection { path_allowlist }
    }
}

impl Default for SecuritySection {
    fn default() -> (section: SecuritySection)
        ensures
            section.path_allowlist@.len() == 0,
    {
        SecuritySection { path_allowlist: Vec::new() }
    }
}

/// The configuration.
#[derive(Debug)]
pub struct KyttiConfig {
    pub vault: VaultSection,
    pub server: ServerSection,
    pub security: SecuritySection,
}

/// The model of a configuration.
pub struct ConfigView {
    pub addr: Seq<char>,
    pub token_path: Seq<char>,
    pub bind: Seq<char>,
    pub allowlist: Seq<Seq<char>>,
}

impl View for KyttiConfig {
    type V = ConfigView;

    open spec fn view(&self) -> ConfigView {
        ConfigView {
            addr: self.vault.addr@,
            token_path: self.vault.token_path@,
            bind: self.server.bind@,
            allowlist: texts(self.security.path_allowlist@),
        }
    }
}

impl Clone for KyttiConfig {
    fn clone(&self) -> (copy: KyttiConfig)
        ensures
            copy@ == self@,
    {
        KyttiConfig {
            vault: self.vault.clone(),
            server: self.server.clone(),
            security: self.security.clone(),
        }
    }
}

/// Why a configuration cannot be used. Where something outside failed, `cause`
/// is its own account of that.
#[derive(Debug)]
pub enum ConfigError {
    ReadConfig { path: String, cause: String },
    Parse { cause: String },
    EmptyAddr,
    EmptyTokenPath,
    ReadToken { path: String, cause: String },
    EmptyToken { path: String },
}

/// The model of a configuration error.
pub enum ConfigErrorView {
    ReadConfig { path: Seq<char>, cause: Seq<char> },
    Parse { cause: Seq<char> },
    EmptyAddr,
    EmptyTokenPath,
    ReadToken { path: Seq<char>, cause: Seq<char> },
    EmptyToken { path: Seq<char> },
}

impl View for ConfigError {
    type V = ConfigErrorView;

    open spec fn view(&self) -> ConfigErrorView {
        match self {
            ConfigError::ReadConfig { path, cause } => ConfigErrorView::ReadConfig {
                path: path@,
                cause: cause@,
            },
            ConfigError::Parse { cause } => ConfigErrorView::Parse { cause: cause@ },
            ConfigError::EmptyAddr => ConfigErrorView::EmptyAddr,
            ConfigError::EmptyTokenPath => ConfigErrorView::EmptyTokenPath,
            ConfigError::ReadToken { path, cause } => ConfigErrorView::ReadToken {
                path: path@,
                cause: cause@,
            },
            ConfigError::EmptyToken { path } => ConfigErrorView::EmptyToken { path: path@ },
        }
    }
}

impl ConfigErrorView {
    /// The message for a reader; the cause is not part of it.
    pub open spec fn message(self) -> Seq<char> {
        match self {
            ConfigErrorView::ReadConfig { path, .. } => "read kytti config "@ + path,
            ConfigErrorView::Parse { .. } => "parse kytti config"@,
            ConfigErrorView::EmptyAddr => "vault.addr is empty"@,
            ConfigErrorView::EmptyTokenPath => "vault.token_path is empty"@,
            ConfigErrorView::ReadToken { path, .. } => "read vault token "@ + path,
            ConfigErrorView::EmptyToken { path } => "vault token at "@ + path + " is empty"@,
        }
    }
}

impl ConfigError {
    /// The message for a reader; the cause is not part of it.
    pub fn to_string(&self) -> (message: String)
        ensures
            message@ == self@.message(),
    {
        match self {
            ConfigError::ReadConfig { path, .. } => "read kytti config ".to_owned().concat(
                path.as_str(),
            ),
            ConfigError::Parse { .. } => "parse kytti config".to_owned(),
            ConfigError::EmptyAddr => "vault.addr is empty".to_owned(),
            ConfigError::EmptyTokenPath => "vault.token_path is empty".to_owned(),
            ConfigError::ReadToken { path, .. } => "read vault token ".to_owned().concat(
                path.as_str(),
            ),
            ConfigError::EmptyToken { path } => "vault token at ".to_owned().concat(
                path.as_str(),
            ).concat(" is empty"),
        }
    }
}

impl ConfigView {
    /// Whether the gateway can work with the configuration.
    pub open spec fn usable(self) -> bool {
        &&& trimmed(self.addr, CharClass::Whitespace).len() > 0
        &&& self.token_path.len() > 0
    }

    /// The configuration, where it is usable, or else what is wrong with it.
    pub open spec fn checked(self) -> Result<ConfigView, ConfigErrorView> {
        if trimmed(self.addr, CharClass::Whitespace).len() == 0 {
            Err(ConfigErrorView::EmptyAddr)
        } else if self.token_path.len() == 0 {
            Err(ConfigErrorView::EmptyTokenPath)
        } else {
            Ok(self)
        }
    }
}

impl KyttiConfig {
    /// A configuration out of what a file names: where it names no address to listen
    /// on, or no prefixes, the default.
    pub fn with_defaults(
        vault: VaultSection,
        bind: Option<String>,
        path_allowlist: Option<Vec<String>>,
    ) -> (config: KyttiConfig)
        ensures
            config@ == (ConfigView {
                addr: vault.addr@,
                token_path: vault.token_path@,
                bind: match bind {
                    Some(text) => text@,
                    None => "0.0.0.0:6339"@,
                },
                allowlist: match path_allowlist {
                    Some(list) => texts(list@),
                    None => Seq::empty(),
                },
            }),
    {
        let server = match bind {
            Some(bind) => ServerSection { bind },
            None => ServerSection::default(),
        };
        let security = match path_allowlist {
            Some(path_allowlist) => SecuritySection { path_allowlist },
            None => SecuritySection::default(),
        };
        let config = KyttiConfig { vault, server, security };
        proof {
            if path_allowlist is None {
                assert(config@.allowlist =~= Seq::<Seq<char>>::empty());
            }
        }
        config
    }

    /// Checks what the TOML parser made of the text of a configuration: the
    /// configuration, or its account of why there is none.
    pub fn from_toml_str(parsed: Result<KyttiConfig, String>) -> (config: Result<
        KyttiConfig,
        ConfigError,
    >)
        ensures
            outcome(config) == match parsed {
                Ok(found) => found@.checked(),
                Err(cause) => Err(ConfigErrorView::Parse { cause: cause@ }),
            },
    {
        match parsed {
            Ok(found) => {
                if trim(found.vault.addr.as_str(), CharClass::Whitespace).is_empty() {
                    Err(ConfigError::EmptyAddr)
                } else if found.vault.token_path.as_str().is_empty() {
                    Err(ConfigError::EmptyTokenPath)
                } else {
                    Ok(found)
                }
            },
            Err(cause) => Err(ConfigError::Parse { cause }),
        }
    }

    /// Checks the configuration file at `path`: what reading it gave, and what the
    /// TOML parser made of its text.
    pub fn from_file(
        path: &str,
        read: Result<Result<KyttiConfig, String>, String>,
    ) -> (config: Result<KyttiConfig, ConfigError>)
        ensures
            outcome(config) == match read {
                Ok(Ok(found)) => found@.checked(),
                Ok(Err(cause)) => Err(ConfigErrorView::Parse { cause: cause@ }),
                Err(cause) => Err(ConfigErrorView::ReadConfig { path: path@, cause: cause@ }),
            },
    {
        match read {
            Ok(parsed) => KyttiConfig::from_toml_str(parsed),
            Err(cause) => Err(ConfigError::ReadConfig { path: path.to_owned(), cause }),
        }
    }
}

/// One coherent snapshot: the configuration and the token that was read with it.
#[derive(Debug)]
pub struct Loaded {
    pub config: KyttiConfig,
    pub token: String,
}

/// The model of a snapshot.
pub struct LoadedView {
    pub config: ConfigView,
    pub token: Seq<char>,
}

impl View for Loaded {
    type V = LoadedView;

    open spec fn view(&self) -> LoadedView {
        LoadedView { config: self.config@, token: self.token@ }
    }
}

impl Clone for Loaded {
    fn clone(&self) -> (copy: Loaded)
        ensures
            copy@ == self@,
    {
        Loaded { config: self.config.clone(), token: self.token.clone() }
    }
}

impl LoadedView {
    /// Whether the gateway can work with the snapshot: a usable configuration, and
    /// a token that is not empty and has no white space around it.
    pub open spec fn usable(self) -> bool {
        &&& self.config.usable()
        &&& self.token.len() > 0
        &&& !CharClass::Whitespace.has(self.token.first())
        &&& !CharClass::Whitespace.has(self.token.last())
    }
}

/// The snapshot of `config` with the token file's text, or why there is none.
pub open spec fn with_token(config: ConfigView, text: Result<Seq<char>, Seq<char>>) -> Result<
    LoadedView,
    ConfigErrorView,
> {
    match text {
        Err(cause) => Err(ConfigErrorView::ReadToken { path: config.token_path, cause }),
        Ok(text) => {
            let token = trimmed(text, CharClass::Whitespace);
            if token.len() == 0 {
                Err(ConfigErrorView::EmptyToken { path: config.token_path })
            } else {
                Ok(LoadedView { config, token })
            }
        },
    }
}

impl Loaded {
    /// Joins a checked configuration with what reading its token file gave.
    pub fn from_path(config: KyttiConfig, token: Result<String, String>) -> (loaded: Result<
        Loaded,
        ConfigError,
    >)
        ensures
            outcome(loaded) == with_token(config@, outcome(token)),
    {
        match token {
            Err(cause) => Err(ConfigError::ReadToken { path: config.vault.token_path, cause }),
            Ok(text) => {
                let token = trim(text.as_str(), CharClass::Whitespace);
                if token.is_empty() {
                    Err(ConfigError::EmptyToken { path: config.vault.token_path })
                } else {
                    Ok(Loaded { config, token: token.to_owned() })
                }
            },
        }
    }
}

/// The snapshot in force, and the path of the file it came from.
///
/// Tasks that are to see the same snapshot share one store; `copy` is for a task that
/// is to keep the one it has.
#[derive(Debug)]
pub struct ConfigStore {
    current: Loaded,
    path: String,
}

/// The model of a store.
pub struct StoreView {
    pub current: LoadedView,
    pub path: Seq<char>,
}

impl View for ConfigStore {
    type V = StoreView;

    closed spec fn view(&self) -> StoreView {
        StoreView { current: self.current@, path: self.path@ }
    }
}

/// A store after what loading anew gave: the new snapshot is in force, or, after a
/// failure, the previous one.
pub open spec fn reloaded(store: StoreView, fresh: Result<LoadedView, ConfigErrorView>) -> StoreView {
    match fresh {
        Ok(current) => StoreView { current, path: store.path },
        Err(_) => store,
    }
}

impl ConfigStore {
    /// A store with `loaded` in force, where loading from `path` gave one.
    pub fn load_from(path: String, loaded: Result<Loaded, ConfigError>) -> (store: Result<
        ConfigStore,
        ConfigError,
    >)
        ensures
            outcome(store) == match outcome(loaded) {
                Ok(current) => Ok(StoreView { current, path: path@ }),
                Err(err) => Err(err),
            },
    {
        match loaded {
            Ok(current) => Ok(ConfigStore { current, path }),
            Err(err) => Err(err),
        }
    }

    /// The snapshot in force.
    pub fn snapshot(&self) -> (loaded: &Loaded)
        ensures
            loaded@ == self@.current,
    {
        &self.current
    }

    /// Takes what loading anew from the path gave: a new snapshot comes into force;
    /// after a failure the previous one stays.
    pub fn reload(&mut self, fresh: Result<Loaded, ConfigError>) -> (done: Result<(), ConfigError>)
        ensures
            final(self)@ == reloaded(old(self)@, outcome(fresh)),
            outcome(done) == match outcome(fresh) {
                Ok(_) => Ok(()),
                Err(err) => Err(err),
            },
    {
        match fresh {
            Ok(loaded) => {
                self.current = loaded;
                Ok(())
            },
            Err(err) => Err(err),
        }
    }

    /// A store of its own, with the snapshot that is in force now. It stays as it is
    /// when this one is reloaded.
    pub fn copy(&self) -> (copy: ConfigStore)
        ensures
            copy@ == self@,
    {
        ConfigStore { current: self.current.clone(), path: self.path.clone() }
    }

    /// The path of the configuration file.
    pub fn path(&self) -> (path: &str)
        ensures
            path@ == self@.path,
    {
        self.path.as_str()
    }
}

} // verus!
