//! The daemon's configuration and where it is read from.
use std::collections::BTreeSet;
use vstd::prelude::*;
use vstd::string::StringExecFns;

verus! {

/// The daemon's configuration: the ports that may be shared with peers.
#[derive(Debug)]
pub struct Config {
    pub shared_ports: BTreeSet<u16>,
}

impl Config {
    /// A configuration with the given shared ports.
    pub fn new(shared_ports: BTreeSet<u16>) -> (c: Config)
        ensures
            c.shared_ports@ == shared_ports@,
    {
        Config { shared_ports }
    }
}

impl Default for Config {
    /// No port is shared.
    fn default() -> (c: Config)
        ensures
            c.shared_ports@ == Set::<u16>::empty(),
    {
        Config { shared_ports: BTreeSet::new() }
    }
}

/// Where the configuration file is looked for, in order of preference: the
/// file that `DEVPTP_CONFIG` names, `.devptp.toml` in the working directory
/// when it exists, `devptp/config.toml` under `XDG_CONFIG_HOME`, and
/// `.config/devptp/config.toml` under `HOME`.
#[derive(Debug)]
pub enum ConfigSource {
    Explicit(String),
    Local,
    XdgConfigHome(String),
    Home(String),
}

/// The source chosen from the environment's values.
pub open spec fn chosen_source(
    devptp_config: Option<Seq<char>>,
    local_exists: bool,
    xdg_config_home: Option<Seq<char>>,
    home: Option<Seq<char>>,
) -> Option<(int, Seq<char>)> {
    match devptp_config {
        Some(p) => Some((0, p)),
        None => if local_exists {
            Some((1, Seq::empty()))
        } else {
            match xdg_config_home {
                Some(r) => Some((2, r)),
                None => match home {
                    Some(h) => Some((3, h)),
                    None => None,
                },
            }
        },
    }
}

/// `DEVPTP_CONFIG`, when set, is the source whatever else holds; without
/// it, an existing `.devptp.toml` comes before `XDG_CONFIG_HOME`, which comes
/// before `HOME`.
pub proof fn lemma_config_precedence(
    devptp_config: Option<Seq<char>>,
    local_exists: bool,
    xdg_config_home: Option<Seq<char>>,
    home: Option<Seq<char>>,
)
    ensures
        devptp_config matches Some(p) ==> chosen_source(devptp_config, local_exists, xdg_config_home, home)
            == Some((0int, p)),
        devptp_config is None && local_exists ==> chosen_source(
            devptp_config,
            local_exists,
            xdg_config_home,
            home,
        ) == Some((1int, Seq::<char>::empty())),
        xdg_config_home matches Some(x) ==> (devptp_config is None && !local_exists ==> chosen_source(
            devptp_config,
            local_exists,
            xdg_config_home,
            home,
        ) == Some((2int, x))),
        home matches Some(h) ==> (devptp_config is None && !local_exists && xdg_config_home is None
            ==> chosen_source(devptp_config, local_exists, xdg_config_home, home) == Some((3int, h))),
        devptp_config is None && !local_exists && xdg_config_home is None && home is None
            ==> chosen_source(devptp_config, local_exists, xdg_config_home, home) is None,
{
}

/// The kind number and the directory (or path) of a source.
pub open spec fn source_parts(s: ConfigSource) -> (int, Seq<char>) {
    match s {
        ConfigSource::Explicit(p) => (0, p@),
        ConfigSource::Local => (1, Seq::empty()),
        ConfigSource::XdgConfigHome(r) => (2, r@),
        ConfigSource::Home(h) => (3, h@),
    }
}

pub open spec fn opt_view(o: Option<String>) -> Option<Seq<char>> {
    match o {
        Some(s) => Some(s@),
        None => None,
    }
}

/// Chooses where to read the configuration from; `None` when the
/// environment names no place.
pub fn config_source(
    devptp_config: Option<String>,
    local_exists: bool,
    xdg_config_home: Option<String>,
    home: Option<String>,
) -> (r: Option<ConfigSource>)
    ensures
        match r {
            Some(s) => chosen_source(
                opt_view(devptp_config),
                local_exists,
                opt_view(xdg_config_home),
                opt_view(home),
            ) == Some(source_parts(s)),
            None => chosen_source(
                opt_view(devptp_config),
                local_exists,
                opt_view(xdg_config_home),
                opt_view(home),
            ) is None,
        },
        devptp_config matches Some(p) ==> (r matches Some(ConfigSource::Explicit(q)) && q@ == p@),
        devptp_config is None && local_exists ==> (r matches Some(ConfigSource::Local)),
        xdg_config_home matches Some(x) ==> (devptp_config is None && !local_exists ==> (r matches Some(
            ConfigSource::XdgConfigHome(q),
        ) && q@ == x@)),
        home matches Some(h) ==> (devptp_config is None && !local_exists && xdg_config_home is None ==> (
        r matches Some(ConfigSource::Home(q)) && q@ == h@)),
        devptp_config is None && !local_exists && xdg_config_home is None && home is None ==> r is None,
{
    match devptp_config {
        Some(p) => Some(ConfigSource::Explicit(p)),
        None => if local_exists {
            Some(ConfigSource::Local)
        } else {
            match xdg_config_home {
                Some(r) => Some(ConfigSource::XdgConfigHome(r)),
                None => match home {
                    Some(h) => Some(ConfigSource::Home(h)),
                    None => None,
                },
            }
        },
    }
}

impl ConfigSource {
    /// The file's path below the source's directory; for an explicit path,
    /// the empty text (the path is the file).
    pub fn file_below(&self) -> (s: String)
        ensures
            s@ == match *self {
                ConfigSource::Explicit(_) => Seq::<char>::empty(),
                ConfigSource::Local => ".devptp.toml"@,
                ConfigSource::XdgConfigHome(_) => "devptp/config.toml"@,
                ConfigSource::Home(_) => ".config/devptp/config.toml"@,
            },
    {
        match self {
            ConfigSource::Explicit(_) => String::new(),
            ConfigSource::Local => String::from_str(".devptp.toml"),
            ConfigSource::XdgConfigHome(_) => String::from_str("devptp/config.toml"),
            ConfigSource::Home(_) => String::from_str(".config/devptp/config.toml"),
        }
    }
}

/// What to do about the configuration once its place is known.
#[derive(Debug, Clone, Copy, PartialEq, Eq, Structural)]
pub enum ConfigDecision {
    /// Use the default configuration (no port shared).
    UseDefault,
    /// Read and parse the file.
    Read,
    /// Fail: the file that `DEVPTP_CONFIG` names does not exist.
    NotFound,
}

/// Decides from the chosen source and whether its file exists: no source or
/// a missing file gives the default, except that a missing file named by
/// `DEVPTP_CONFIG` is an error.
pub fn config_decision(source: &Option<ConfigSource>, file_exists: bool) -> (d: ConfigDecision)
    ensures
        source is None ==> d == ConfigDecision::UseDefault,
        source is Some && file_exists ==> d == ConfigDecision::Read,
        source is Some && !file_exists ==> d == if source matches Some(ConfigSource::Explicit(_)) {
            ConfigDecision::NotFound
        } else {
            ConfigDecision::UseDefault
        },
{
    match source {
        None => ConfigDecision::UseDefault,
        Some(s) => if file_exists {
            ConfigDecision::Read
        } else {
            match s {
                ConfigSource::Explicit(_) => ConfigDecision::NotFound,
                _ => ConfigDecision::UseDefault,
            }
        },
    }
}

} // verus!
