//! Settings: defaults, then the file, then the environment.
//!
//! The file and the environment are read by the caller, and handed in as
//! [`FileConfig`] and [`EnvConfig`].

use vstd::prelude::*;

use crate::text;
use crate::text::{chars_of, clone_opt_text, owned, push_str, string_of, trim};

verus! {

/// Default address of the local API.
pub const DEFAULT_BIND_ADDR: &'static str = "0.0.0.0:8080";

/// Default log filter.
pub const DEFAULT_LOG_LEVEL: &'static str = "info";

/// Names the settings file.
pub const ENV_CONFIG_PATH: &'static str = "PENTAIR_CONFIG";

/// Names the transport.
pub const ENV_TRANSPORT_URL: &'static str = "PENTAIR_TRANSPORT_URL";

/// Names the address of the local API.
pub const ENV_BIND_ADDR: &'static str = "PENTAIR_BIND_ADDR";

/// Names the log filter.
pub const ENV_LOG_LEVEL: &'static str = "PENTAIR_LOG_LEVEL";

/// The settings file that is read when none is named.
pub const DEFAULT_CONFIG_PATH: &'static str = "config.toml";

/// Errors of reading the settings.
#[derive(Debug, PartialEq, Eq)]
pub enum ConfigError {
    /// The file could not be read.
    Io {
        /// Path of the file.
        path: String,
        /// What went wrong.
        source: String,
    },
    /// The file is no TOML of the right shape.
    Toml(String),
    /// There is no address to listen on.
    EmptyBindAddr,
}

impl ConfigError {
    /// The text of [`ConfigError::to_string`].
    pub open spec fn message(&self) -> Seq<char> {
        match self {
            ConfigError::Io { path, source } => "failed to read config file "@ + path@ + ": "@
                + source@,
            ConfigError::Toml(s) => "failed to parse config TOML: "@ + s@,
            ConfigError::EmptyBindAddr => "bind_addr must not be empty"@,
        }
    }

    /// What went wrong, in words.
    pub fn to_string(&self) -> (r: String)
        ensures
            r@ == self.message(),
    {
        match self {
            ConfigError::Io { path, source } => {
                let mut s = owned("failed to read config file ");
                push_str(&mut s, path.as_str());
                push_str(&mut s, ": ");
                push_str(&mut s, source.as_str());
                s
            },
            ConfigError::Toml(t) => {
                let mut s = owned("failed to parse config TOML: ");
                push_str(&mut s, t.as_str());
                s
            },
            ConfigError::EmptyBindAddr => owned("bind_addr must not be empty"),
        }
    }
}

/// The settings of the service.
#[derive(Debug, PartialEq, Eq)]
pub struct Config {
    /// Address of the local API.
    pub bind_addr: String,
    /// Where the bus is; without one the service idles.
    pub transport_url: Option<String>,
    /// Log filter.
    pub log_level: String,
}

/// The mathematical content of a [`Config`].
#[verifier::ext_equal]
pub struct ConfigView {
    pub bind_addr: Seq<char>,
    pub transport_url: Option<Seq<char>>,
    pub log_level: Seq<char>,
}

impl View for Config {
    type V = ConfigView;

    open spec fn view(&self) -> ConfigView {
        ConfigView {
            bind_addr: self.bind_addr@,
            transport_url: text::opt_text(self.transport_url),
            log_level: self.log_level@,
        }
    }
}

impl Clone for Config {
    fn clone(&self) -> (r: Self)
        ensures
            r@ == self@,
    {
        Config {
            bind_addr: self.bind_addr.clone(),
            transport_url: clone_opt_text(&self.transport_url),
            log_level: self.log_level.clone(),
        }
    }
}

/// The settings without file and environment.
pub open spec fn default_config() -> ConfigView {
    ConfigView {
        bind_addr: DEFAULT_BIND_ADDR@,
        transport_url: None,
        log_level: DEFAULT_LOG_LEVEL@,
    }
}

impl Default for Config {
    fn default() -> (r: Self)
        ensures
            r@ == default_config(),
    {
        Config {
            bind_addr: owned(DEFAULT_BIND_ADDR),
            transport_url: None,
            log_level: owned(DEFAULT_LOG_LEVEL),
        }
    }
}

/// A transport URL without whitespace around it, if there is anything in it.
pub open spec fn usable_url(url: Option<Seq<char>>) -> Option<Seq<char>> {
    match url {
        Some(u) => if text::trim_of(u).len() == 0 {
            None
        } else {
            Some(text::trim_of(u))
        },
        None => None,
    }
}

/// What a configuration is resolved from, besides the defaults.
#[derive(Debug, PartialEq, Eq)]
pub struct FileConfig {
    /// `bind_addr`.
    pub bind_addr: Option<String>,
    /// `transport_url`.
    pub transport_url: Option<String>,
    /// `log_level`.
    pub log_level: Option<String>,
}

/// The environment variables, as far as they are set.
#[derive(Debug, PartialEq, Eq)]
pub struct EnvConfig {
    /// [`ENV_BIND_ADDR`].
    pub bind_addr: Option<String>,
    /// [`ENV_TRANSPORT_URL`].
    pub transport_url: Option<String>,
    /// [`ENV_LOG_LEVEL`].
    pub log_level: Option<String>,
}

/// The mathematical content of a [`FileConfig`] or an [`EnvConfig`].
#[verifier::ext_equal]
pub struct SourceView {
    pub bind_addr: Option<Seq<char>>,
    pub transport_url: Option<Seq<char>>,
    pub log_level: Option<Seq<char>>,
}

impl View for FileConfig {
    type V = SourceView;

    open spec fn view(&self) -> SourceView {
        SourceView {
            bind_addr: text::opt_text(self.bind_addr),
            transport_url: text::opt_text(self.transport_url),
            log_level: text::opt_text(self.log_level),
        }
    }
}

impl View for EnvConfig {
    type V = SourceView;

    open spec fn view(&self) -> SourceView {
        SourceView {
            bind_addr: text::opt_text(self.bind_addr),
            transport_url: text::opt_text(self.transport_url),
            log_level: text::opt_text(self.log_level),
        }
    }
}

/// Gathers settings.
#[derive(Debug)]
pub struct ConfigBuilder {
    bind_addr: Option<String>,
    transport_url: Option<Option<String>>,
    log_level: Option<String>,
}

/// The mathematical content of a [`ConfigBuilder`]: what is set so far. A transport
/// may be set to none.
#[verifier::ext_equal]
pub struct BuilderView {
    pub bind_addr: Option<Seq<char>>,
    pub transport_url: Option<Option<Seq<char>>>,
    pub log_level: Option<Seq<char>>,
}

impl View for ConfigBuilder {
    type V = BuilderView;

    closed spec fn view(&self) -> BuilderView {
        BuilderView {
            bind_addr: text::opt_text(self.bind_addr),
            transport_url: match self.transport_url {
                Some(u) => Some(text::opt_text(u)),
                None => None,
            },
            log_level: text::opt_text(self.log_level),
        }
    }
}

impl BuilderView {
    /// Nothing is set.
    pub open spec fn unset() -> BuilderView {
        BuilderView { bind_addr: None, transport_url: None, log_level: None }
    }

    /// The transport is set; a blank URL sets it to none.
    pub open spec fn with_url(self, url: Seq<char>) -> BuilderView {
        BuilderView {
            transport_url: Some(
                if text::trim_of(url).len() == 0 {
                    None
                } else {
                    Some(url)
                },
            ),
            ..self
        }
    }

    /// What the file sets is set; the rest stays.
    pub open spec fn with_file(self, file: SourceView) -> BuilderView {
        let a = BuilderView {
            bind_addr: if file.bind_addr is Some {
                file.bind_addr
            } else {
                self.bind_addr
            },
            log_level: if file.log_level is Some {
                file.log_level
            } else {
                self.log_level
            },
            ..self
        };
        match file.transport_url {
            Some(url) => a.with_url(url),
            None => a,
        }
    }

    /// What the environment sets is set; the rest stays. Empty variables do not
    /// count, save that an empty transport sets none.
    pub open spec fn with_env(self, env: SourceView) -> BuilderView {
        let a = BuilderView {
            bind_addr: match env.bind_addr {
                Some(v) => if v.len() > 0 {
                    Some(v)
                } else {
                    self.bind_addr
                },
                None => self.bind_addr,
            },
            log_level: match env.log_level {
                Some(v) => if v.len() > 0 {
                    Some(v)
                } else {
                    self.log_level
                },
                None => self.log_level,
            },
            ..self
        };
        match env.transport_url {
            Some(url) => a.with_url(url),
            None => a,
        }
    }

    /// The settings file, if there is one, and then the environment.
    pub open spec fn with_sources(self, file: Option<SourceView>, env: SourceView) -> BuilderView {
        match file {
            Some(f) => self.with_file(f).with_env(env),
            None => self.with_env(env),
        }
    }

    /// The settings, with defaults for what is not set.
    pub open spec fn built(self) -> ConfigView {
        ConfigView {
            bind_addr: match self.bind_addr {
                Some(v) => v,
                None => DEFAULT_BIND_ADDR@,
            },
            transport_url: match self.transport_url {
                Some(u) => u,
                None => None,
            },
            log_level: match self.log_level {
                Some(v) => v,
                None => DEFAULT_LOG_LEVEL@,
            },
        }
    }
}

/// The view of a built configuration: there is none without an address.
pub open spec fn is_built(r: Result<Config, ConfigError>, want: ConfigView) -> bool {
    if text::trim_of(want.bind_addr).len() == 0 {
        r matches Err(ConfigError::EmptyBindAddr)
    } else {
        r matches Ok(c) && c@ == want
    }
}

/// The view of an optional file.
pub open spec fn opt_file(file: Option<FileConfig>) -> Option<SourceView> {
    match file {
        Some(f) => Some(f@),
        None => None,
    }
}

fn is_blank(s: &str) -> (r: bool)
    ensures
        r == (text::trim_of(s@).len() == 0),
{
    let c = chars_of(s);
    trim(c.as_slice()).len() == 0
}

fn is_empty_text(s: &str) -> (r: bool)
    ensures
        r == (s@.len() == 0),
{
    chars_of(s).len() == 0
}

impl Config {
    /// Resolves the settings. Later sources win: the defaults, the file, the
    /// environment.
    pub fn load(file: Option<FileConfig>, env: EnvConfig) -> (r: Result<Self, ConfigError>)
        ensures
            is_built(r, BuilderView::unset().with_sources(opt_file(file), env@).built()),
    {
        ConfigBuilder::new().from_env_and_disk(file, env).build()
    }

    /// True when a transport is configured.
    pub fn has_transport(&self) -> (r: bool)
        ensures
            r == (usable_url(self@.transport_url) is Some),
    {
        match &self.transport_url {
            Some(u) => !is_blank(u.as_str()),
            None => false,
        }
    }

    /// The transport URL without whitespace around it, if there is anything in it.
    pub fn transport(&self) -> (r: Option<String>)
        ensures
            text::opt_text(r) == usable_url(self@.transport_url),
    {
        match &self.transport_url {
            Some(u) => {
                let c = chars_of(u.as_str());
                let t = trim(c.as_slice());
                if t.len() == 0 {
                    None
                } else {
                    Some(string_of(t))
                }
            },
            None => None,
        }
    }
}

impl Clone for ConfigBuilder {
    fn clone(&self) -> (r: Self)
        ensures
            r@ == self@,
    {
        ConfigBuilder {
            bind_addr: clone_opt_text(&self.bind_addr),
            transport_url: match &self.transport_url {
                Some(u) => Some(clone_opt_text(u)),
                None => None,
            },
            log_level: clone_opt_text(&self.log_level),
        }
    }
}

impl Default for ConfigBuilder {
    fn default() -> (r: Self)
        ensures
            r@ == BuilderView::unset(),
    {
        ConfigBuilder::new()
    }
}

impl ConfigBuilder {
    /// Nothing is set.
    pub fn new() -> (r: Self)
        ensures
            r@ == BuilderView::unset(),
    {
        ConfigBuilder { bind_addr: None, transport_url: None, log_level: None }
    }

    /// Sets the address of the local API.
    pub fn bind_addr(self, addr: &str) -> (r: Self)
        ensures
            r@ == (BuilderView { bind_addr: Some(addr@), ..self@ }),
    {
        let mut b = self;
        b.bind_addr = Some(owned(addr));
        b
    }

    /// Sets the transport; a blank URL clears it.
    pub fn transport_url(self, url: &str) -> (r: Self)
        ensures
            r@ == self@.with_url(url@),
    {
        let mut b = self;
        b.transport_url = Some(
            if is_blank(url) {
                None
            } else {
                Some(owned(url))
            },
        );
        b
    }

    /// Clears the transport.
    pub fn clear_transport(self) -> (r: Self)
        ensures
            r@ == (BuilderView { transport_url: Some(None), ..self@ }),
    {
        let mut b = self;
        b.transport_url = Some(None);
        b
    }

    /// Sets the log filter.
    pub fn log_level(self, level: &str) -> (r: Self)
        ensures
            r@ == (BuilderView { log_level: Some(level@), ..self@ }),
    {
        let mut b = self;
        b.log_level = Some(owned(level));
        b
    }

    /// Takes over what the file sets.
    pub fn merge_file(self, file: FileConfig) -> (r: Self)
        ensures
            r@ == self@.with_file(file@),
    {
        let mut b = self;
        match file.bind_addr {
            Some(addr) => {
                b.bind_addr = Some(addr);
            },
            None => {},
        }
        match file.log_level {
            Some(level) => {
                b.log_level = Some(level);
            },
            None => {},
        }
        match file.transport_url {
            Some(url) => b.transport_url(url.as_str()),
            None => b,
        }
    }

    /// Takes over what the settings file sets, if there is one, and then what the
    /// environment sets.
    pub fn from_env_and_disk(self, file: Option<FileConfig>, env: EnvConfig) -> (r: Self)
        ensures
            r@ == self@.with_sources(opt_file(file), env@),
    {
        let mut b = match file {
            Some(f) => self.merge_file(f),
            None => self,
        };
        match env.bind_addr {
            Some(addr) => {
                if !is_empty_text(addr.as_str()) {
                    b = b.bind_addr(addr.as_str());
                }
            },
            None => {},
        }
        match env.log_level {
            Some(level) => {
                if !is_empty_text(level.as_str()) {
                    b = b.log_level(level.as_str());
                }
            },
            None => {},
        }
        match env.transport_url {
            Some(url) => b.transport_url(url.as_str()),
            None => b,
        }
    }

    /// The settings, with defaults for what is not set.
    pub fn build(self) -> (r: Result<Config, ConfigError>)
        ensures
            is_built(r, self@.built()),
    {
        let bind_addr = match self.bind_addr {
            Some(a) => a,
            None => owned(DEFAULT_BIND_ADDR),
        };
        if is_blank(bind_addr.as_str()) {
            return Err(ConfigError::EmptyBindAddr);
        }
        let log_level = match self.log_level {
            Some(l) => l,
            None => owned(DEFAULT_LOG_LEVEL),
        };
        let transport_url = match self.transport_url {
            Some(u) => u,
            None => None,
        };
        Ok(Config { bind_addr, transport_url, log_level })
    }
}

/// The settings file to read: the one that is named, else the default one if it
/// exists. An empty name names none.
pub open spec fn config_path(named: Option<Seq<char>>, default_exists: bool) -> Option<Seq<char>> {
    if named is Some && named->0.len() > 0 {
        named
    } else if default_exists {
        Some(DEFAULT_CONFIG_PATH@)
    } else {
        None
    }
}

/// The settings file to read: the one that the environment names, else the default
/// one if it exists.
pub fn resolve_config_path(named: Option<&str>, default_exists: bool) -> (r: Option<String>)
    ensures
        text::opt_text(r) == config_path(
            match named {
                Some(path) => Some(path@),
                None => None,
            },
            default_exists,
        ),
{
    match named {
        Some(path) => {
            if !is_empty_text(path) {
                return Some(owned(path));
            }
        },
        None => {},
    }
    if default_exists {
        Some(owned(DEFAULT_CONFIG_PATH))
    } else {
        None
    }
}

/// Without a file and without environment variables the settings are the defaults,
/// and the service idles.
pub proof fn law_nothing_set_gives_defaults()
    ensures
        BuilderView::unset().with_sources(
            None,
            SourceView { bind_addr: None, transport_url: None, log_level: None },
        ).built() == default_config(),
        usable_url(default_config().transport_url) is None,
{
}

/// The environment wins over the file, and the file over the defaults, setting by
/// setting.
pub proof fn law_later_sources_win(file: SourceView, env: SourceView)
    ensures
        ({
            let c = BuilderView::unset().with_sources(Some(file), env).built();
            &&& env.bind_addr is Some && env.bind_addr->0.len() > 0 ==> c.bind_addr
                == env.bind_addr->0
            &&& env.log_level is Some && env.log_level->0.len() > 0 ==> c.log_level
                == env.log_level->0
            &&& env.bind_addr is None && file.bind_addr is Some ==> c.bind_addr
                == file.bind_addr->0
            &&& env.log_level is None && file.log_level is Some ==> c.log_level
                == file.log_level->0
            &&& env.transport_url is Some ==> usable_url(c.transport_url) == usable_url(
                env.transport_url,
            )
            &&& env.transport_url is None && file.transport_url is Some ==> usable_url(
                c.transport_url,
            ) == usable_url(file.transport_url)
            &&& env.bind_addr is None && file.bind_addr is None ==> c.bind_addr
                == DEFAULT_BIND_ADDR@
            &&& env.log_level is None && file.log_level is None ==> c.log_level
                == DEFAULT_LOG_LEVEL@
            &&& env.transport_url is None && file.transport_url is None ==> c.transport_url is None
        }),
{
}

/// What is set last counts, setting by setting, and nothing else changes: a file, an
/// environment or a call sets what it names. An empty variable names nothing, but an
/// empty transport names none.
pub proof fn law_sources_set_what_they_name(v: BuilderView, source: SourceView)
    ensures
        ({
            let f = v.with_file(source);
            &&& f.bind_addr == if source.bind_addr is Some {
                source.bind_addr
            } else {
                v.bind_addr
            }
            &&& f.log_level == if source.log_level is Some {
                source.log_level
            } else {
                v.log_level
            }
            &&& source.transport_url is None ==> f.transport_url == v.transport_url
            &&& source.transport_url matches Some(u) ==> f.transport_url == Some(
                if text::trim_of(u).len() > 0 {
                    Some(u)
                } else {
                    None
                },
            )
        }),
        ({
            let e = v.with_env(source);
            &&& e.bind_addr == if source.bind_addr is Some && source.bind_addr->0.len() > 0 {
                source.bind_addr
            } else {
                v.bind_addr
            }
            &&& e.log_level == if source.log_level is Some && source.log_level->0.len() > 0 {
                source.log_level
            } else {
                v.log_level
            }
            &&& source.transport_url is None ==> e.transport_url == v.transport_url
            &&& source.transport_url matches Some(u) ==> e.transport_url == Some(
                if text::trim_of(u).len() > 0 {
                    Some(u)
                } else {
                    None
                },
            )
        }),
{
}

/// A configuration holds what was set, and the defaults for the rest; without anything
/// to listen on there is none.
pub proof fn law_built_configuration(v: BuilderView, r: Result<Config, ConfigError>)
    requires
        is_built(r, v.built()),
    ensures
        v.bind_addr is Some && text::trim_of(v.bind_addr->0).len() == 0 <==> r is Err,
        r matches Err(e) ==> e is EmptyBindAddr,
        r matches Ok(c) ==> {
            &&& v.bind_addr is Some ==> c.bind_addr@ == v.bind_addr->0
            &&& v.bind_addr is None ==> c.bind_addr@ == "0.0.0.0:8080"@
            &&& v.log_level is Some ==> c.log_level@ == v.log_level->0
            &&& v.log_level is None ==> c.log_level@ == "info"@
            &&& v.transport_url is Some ==> text::opt_text(c.transport_url) == v.transport_url->0
            &&& v.transport_url is None ==> c.transport_url is None
        },
{
    reveal_strlit("0.0.0.0:8080");
    text::lemma_trim_fixed("0.0.0.0:8080"@);
    if r is Ok {
        assert(r->Ok_0@ == v.built());
    }
}

/// A transport URL is usable if there is anything in it but whitespace, and is then
/// used without the whitespace around it.
pub proof fn law_usable_url(url: Seq<char>, before: Seq<char>, after: Seq<char>)
    requires
        url.len() == 0 || (!text::is_space(url[0]) && !text::is_space(url.last())),
        forall|i: int| 0 <= i < before.len() ==> text::is_space(#[trigger] before[i]),
        forall|i: int| 0 <= i < after.len() ==> text::is_space(#[trigger] after[i]),
    ensures
        usable_url(Some(before + url + after)) == if url.len() > 0 {
            Some(url)
        } else {
            None
        },
        usable_url(None) is None,
{
    text::law_trim(url, before, after);
}

/// The settings file is the one that is named; without a name it is `config.toml`, if
/// there is one, and else none.
pub proof fn law_settings_file(named: Seq<char>, default_exists: bool)
    ensures
        named.len() > 0 ==> config_path(Some(named), default_exists) == Some(named),
        config_path(Some(Seq::empty()), default_exists) == config_path(None, default_exists),
        config_path(None, true) == Some("config.toml"@),
        config_path(None, false) is None,
{
}

/// What is stated of settings is stated of their fields, each under its own name.
pub proof fn law_settings_show_their_fields(c: Config, f: FileConfig)
    ensures
        c@.bind_addr == c.bind_addr@ && c@.log_level == c.log_level@,
        c.transport_url matches Some(u) ==> c@.transport_url == Some(u@),
        c.transport_url is None ==> c@.transport_url is None,
        f.bind_addr matches Some(b) ==> f@.bind_addr == Some(b@),
        f.transport_url matches Some(u) ==> f@.transport_url == Some(u@),
        f.log_level matches Some(l) ==> f@.log_level == Some(l@),
        f.bind_addr is None ==> f@.bind_addr is None,
        f.transport_url is None ==> f@.transport_url is None,
        f.log_level is None ==> f@.log_level is None,
{
}

/// The environment goes before the file, the file before the defaults.
pub proof fn law_environment_goes_first(
    file: FileConfig,
    env: EnvConfig,
    r: Result<Config, ConfigError>,
)
    requires
        call_ensures(Config::load, (Some(file), env), r),
    ensures
        env.bind_addr matches Some(b) ==> text::trim_of(b@).len() > 0 ==> b@.len() > 0 ==> (
        r matches Ok(c) && c.bind_addr@ == b@),
        env.bind_addr is None && file.bind_addr is Some && text::trim_of(file.bind_addr->0@).len()
            > 0 ==> (r matches Ok(c) && c.bind_addr@ == file.bind_addr->0@),
        env.bind_addr is None && file.bind_addr is None ==> (r matches Ok(c) && c.bind_addr@
            == "0.0.0.0:8080"@),
        r matches Ok(c) ==> {
            &&& env.log_level matches Some(l) ==> l@.len() > 0 ==> c.log_level@ == l@
            &&& env.log_level is None && file.log_level is Some ==> c.log_level@
                == file.log_level->0@
            &&& env.log_level is None && file.log_level is None ==> c.log_level@ == "info"@
            &&& env.transport_url matches Some(u) ==> text::trim_of(u@).len() > 0 ==> (
            c.transport_url matches Some(t) && t@ == u@)
            &&& env.transport_url matches Some(u) ==> text::trim_of(u@).len() == 0
                ==> c.transport_url is None
            &&& env.transport_url is None && file.transport_url is Some && text::trim_of(
                file.transport_url->0@,
            ).len() > 0 ==> (c.transport_url matches Some(t) && t@ == file.transport_url->0@)
            &&& env.transport_url is None && file.transport_url is None ==> c.transport_url is None
        },
{
    law_built_configuration(BuilderView::unset().with_sources(Some(file@), env@), r);
}

/// The setters set what they name and nothing else.
pub proof fn law_setters(b: ConfigBuilder, s: &str, r: ConfigBuilder)
    ensures
        call_ensures(ConfigBuilder::bind_addr, (b, s), r) ==> r@.bind_addr == Some(s@)
            && r@.log_level == b@.log_level && r@.transport_url == b@.transport_url,
        call_ensures(ConfigBuilder::log_level, (b, s), r) ==> r@.log_level == Some(s@)
            && r@.bind_addr == b@.bind_addr && r@.transport_url == b@.transport_url,
        call_ensures(ConfigBuilder::transport_url, (b, s), r) ==> r@.log_level == b@.log_level
            && r@.bind_addr == b@.bind_addr && (text::trim_of(s@).len() > 0 ==> r@.transport_url
            == Some(Some(s@))) && (text::trim_of(s@).len() == 0 ==> r@.transport_url == Some(
            None::<Seq<char>>,
        )),
        call_ensures(ConfigBuilder::clear_transport, (b,), r) ==> r@.log_level == b@.log_level
            && r@.bind_addr == b@.bind_addr && r@.transport_url == Some(None::<Seq<char>>),
{
}

/// An error tells the file and the reason.
pub proof fn law_config_errors_in_words(e: ConfigError, s: String)
    requires
        call_ensures(ConfigError::to_string, (&e,), s),
    ensures
        e matches ConfigError::Io { path, source } ==> s@ == "failed to read config file "@ + path@
            + ": "@ + source@,
        e matches ConfigError::Toml(t) ==> s@ == "failed to parse config TOML: "@ + t@,
        e is EmptyBindAddr ==> s@ == "bind_addr must not be empty"@,
{
}

} // verus!
