//! Deployment environment and server configuration.
//!
//! Reading the process environment is left to the caller: it hands the raw
//! values over in [`EnvVars`], and [`Config::from_env`] decides what they mean.

use crate::text::{
    bool_reading, decimal_reading, decimal_string, decimal_text, lowercase, parse_bool, parse_i64,
    parse_u16, parse_usize, same_text, split, split_on, to_lowercase, trim, trimmed,
};
use vstd::prelude::*;
use vstd::string::StringExecFns;
use vstd::string::StringSliceAdditionalSpecFns;
use vstd::utf8::encode_utf8;

verus! {

/// Deployment environment the server runs in.
#[derive(Clone, Debug, PartialEq, Eq, Structural)]
pub enum Environment {
    Local,
    Development,
    Staging,
    Production,
}

/// The environment that a lower-case name stands for; an unknown name stands
/// for `Local`.
pub open spec fn environment_named(lower: Seq<char>) -> Environment {
    if lower == "local"@ {
        Environment::Local
    } else if lower == "dev"@ || lower == "development"@ {
        Environment::Development
    } else if lower == "staging"@ || lower == "stage"@ {
        Environment::Staging
    } else if lower == "prod"@ || lower == "production"@ {
        Environment::Production
    } else {
        Environment::Local
    }
}

impl Environment {
    /// The name this environment is written with.
    pub open spec fn name(self) -> Seq<char> {
        match self {
            Environment::Local => "local"@,
            Environment::Development => "development"@,
            Environment::Staging => "staging"@,
            Environment::Production => "production"@,
        }
    }

    /// The log level recommended for this environment.
    pub open spec fn log_level(self) -> Seq<char> {
        match self {
            Environment::Local => "debug"@,
            Environment::Development => "debug"@,
            Environment::Staging => "info"@,
            Environment::Production => "info"@,
        }
    }

    /// The port the server listens on when none is configured.
    pub open spec fn spec_default_port(self) -> u16 {
        match self {
            Environment::Local => 3000,
            Environment::Development => 3001,
            Environment::Staging => 3002,
            Environment::Production => 8080,
        }
    }

    /// Reads an environment from a name that is already lower-case.
    pub fn from_lowercase(lower: &str) -> (r: Environment)
        ensures
            r == environment_named(lower@),
    {
        if same_text(lower, "local") {
            Environment::Local
        } else if same_text(lower, "dev") || same_text(lower, "development") {
            Environment::Development
        } else if same_text(lower, "staging") || same_text(lower, "stage") {
            Environment::Staging
        } else if same_text(lower, "prod") || same_text(lower, "production") {
            Environment::Production
        } else {
            Environment::Local
        }
    }

    /// Reads an environment from its name, in any letter case.
    pub fn from_str(s: &str) -> (r: Environment)
        ensures
            r == environment_named(lowercase(s@)),
    {
        let lower = to_lowercase(s);
        Environment::from_lowercase(lower.as_str())
    }

    /// Whether this is the production environment.
    pub fn is_production(&self) -> (r: bool)
        ensures
            r == (*self == Environment::Production),
    {
        matches!(self, Environment::Production)
    }

    /// Whether this is a local or development environment.
    pub fn is_development(&self) -> (r: bool)
        ensures
            r == (*self == Environment::Local || *self == Environment::Development),
    {
        matches!(self, Environment::Local | Environment::Development)
    }

    /// Whether cross-origin requests may be allowed from anywhere.
    pub fn cors_permissive(&self) -> (r: bool)
        ensures
            r == (*self != Environment::Production),
    {
        !self.is_production()
    }

    /// The log level recommended for this environment.
    pub fn default_log_level(&self) -> (r: &'static str)
        ensures
            r@ == self.log_level(),
    {
        match self {
            Environment::Local => "debug",
            Environment::Development => "debug",
            Environment::Staging => "info",
            Environment::Production => "info",
        }
    }

    /// The port the server listens on when none is configured.
    pub fn default_port(&self) -> (r: u16)
        ensures
            r == self.spec_default_port(),
    {
        match self {
            Environment::Local => 3000,
            Environment::Development => 3001,
            Environment::Staging => 3002,
            Environment::Production => 8080,
        }
    }

    /// The name of this environment.
    pub fn to_string(&self) -> (r: String)
        ensures
            r@ == self.name(),
    {
        match self {
            Environment::Local => String::from_str("local"),
            Environment::Development => String::from_str("development"),
            Environment::Staging => String::from_str("staging"),
            Environment::Production => String::from_str("production"),
        }
    }
}

/// The raw values of the variables that configure the server; `None` where a
/// variable is not set.
#[derive(Clone, Debug, PartialEq)]
pub struct EnvVars {
    pub app_env: Option<String>,
    pub environment: Option<String>,
    pub database_url: Option<String>,
    pub jwt_secret: Option<String>,
    pub port: Option<String>,
    pub host: Option<String>,
    pub jwt_expiration_hours: Option<String>,
    pub max_ws_connections: Option<String>,
    pub cors_origins: Option<String>,
    pub enable_logging: Option<String>,
}

/// Why a set of variables gives no configuration.
#[derive(Clone, Debug, PartialEq, Eq, Structural)]
pub enum ConfigError {
    /// The database URL is not set.
    MissingDatabaseUrl,
    /// The token-signing secret is not set.
    MissingJwtSecret,
    /// The token-signing secret is shorter than production allows.
    WeakJwtSecret,
}

/// Shortest token-signing secret, in bytes, that production accepts.
pub const MIN_PRODUCTION_SECRET_LEN: usize = 32;

/// Hours a token stays valid when nothing is configured.
pub const DEFAULT_JWT_EXPIRATION_HOURS: i64 = 24;

/// Connections per room when nothing is configured.
pub const DEFAULT_MAX_WS_CONNECTIONS: usize = 100;

impl EnvVars {
    /// The text that names the environment: the first of the two variables
    /// that is set, else `local`.
    pub open spec fn environment_text(self) -> Seq<char> {
        match self.app_env {
            Some(name) => name@,
            None => match self.environment {
                Some(name) => name@,
                None => "local"@,
            },
        }
    }

    /// The environment that the variables select.
    pub open spec fn selected_environment(self) -> Environment {
        environment_named(lowercase(self.environment_text()))
    }

    /// The port: the configured one where it reads as a number, else the
    /// environment's default.
    pub open spec fn selected_port(self) -> u16 {
        let fallback = self.selected_environment().spec_default_port();
        match self.port {
            Some(p) => match decimal_reading(p@, false, 0, u16::MAX as int) {
                Some(v) => v as u16,
                None => fallback,
            },
            None => fallback,
        }
    }

    /// The host to bind: the configured one, else every interface.
    pub open spec fn selected_host(self) -> Seq<char> {
        match self.host {
            Some(h) => h@,
            None => "0.0.0.0"@,
        }
    }

    /// Hours a token stays valid.
    pub open spec fn selected_expiration_hours(self) -> i64 {
        match self.jwt_expiration_hours {
            Some(h) => match decimal_reading(h@, true, i64::MIN as int, i64::MAX as int) {
                Some(v) => v as i64,
                None => DEFAULT_JWT_EXPIRATION_HOURS,
            },
            None => DEFAULT_JWT_EXPIRATION_HOURS,
        }
    }

    /// Connections allowed per room.
    pub open spec fn selected_max_connections(self) -> usize {
        match self.max_ws_connections {
            Some(m) => match decimal_reading(m@, false, 0, usize::MAX as int) {
                Some(v) => v as usize,
                None => DEFAULT_MAX_WS_CONNECTIONS,
            },
            None => DEFAULT_MAX_WS_CONNECTIONS,
        }
    }

    /// The allowed origins: the comma-separated entries, each trimmed; none
    /// where the variable is not set.
    pub open spec fn selected_origins(self) -> Seq<Seq<char>> {
        match self.cors_origins {
            Some(list) => split_on(list@, ',').map_values(|piece: Seq<char>| trimmed(piece)),
            None => Seq::empty(),
        }
    }

    /// Whether requests are logged: the configured flag where it reads as a
    /// boolean, else yes.
    pub open spec fn selected_logging(self) -> bool {
        match self.enable_logging {
            Some(flag) => match bool_reading(flag@) {
                Some(b) => b,
                None => true,
            },
            None => true,
        }
    }

    /// Why the variables give no configuration, if they do not.
    pub open spec fn rejection(self) -> Option<ConfigError> {
        match (self.database_url, self.jwt_secret) {
            (None, _) => Some(ConfigError::MissingDatabaseUrl),
            (Some(_), None) => Some(ConfigError::MissingJwtSecret),
            (Some(_), Some(secret)) => if self.selected_environment() == Environment::Production
                && encode_utf8(secret@).len() < MIN_PRODUCTION_SECRET_LEN {
                Some(ConfigError::WeakJwtSecret)
            } else {
                None
            },
        }
    }

    /// Whether `config` is what these variables configure.
    pub open spec fn configures(self, config: Config) -> bool {
        &&& config.environment == self.selected_environment()
        &&& self.database_url matches Some(url) && config.database_url@ == url@
        &&& self.jwt_secret matches Some(secret) && config.jwt_secret@ == secret@
        &&& config.port == self.selected_port()
        &&& config.host@ == self.selected_host()
        &&& config.jwt_expiration_hours == self.selected_expiration_hours()
        &&& config.max_ws_connections == self.selected_max_connections()
        &&& config.cors_origins.deep_view() == self.selected_origins()
        &&& config.enable_logging == self.selected_logging()
    }
}

/// Server configuration.
#[derive(Clone, Debug, PartialEq)]
pub struct Config {
    /// Current environment.
    pub environment: Environment,
    /// Database connection URL.
    pub database_url: String,
    /// Secret that tokens are signed with.
    pub jwt_secret: String,
    /// Port the server listens on.
    pub port: u16,
    /// Host the server binds.
    pub host: String,
    /// Hours a token stays valid.
    pub jwt_expiration_hours: i64,
    /// Most connections one room accepts.
    pub max_ws_connections: usize,
    /// Origins that cross-origin requests are allowed from (none: any).
    pub cors_origins: Vec<String>,
    /// Whether requests are logged.
    pub enable_logging: bool,
}

/// Splits a comma-separated list and trims every entry.
pub fn parse_origins(list: &str) -> (r: Vec<String>)
    ensures
        r.deep_view() == split_on(list@, ',').map_values(|piece: Seq<char>| trimmed(piece)),
{
    let pieces = split(list, ',');
    let mut origins: Vec<String> = Vec::new();
    let mut i: usize = 0;
    let ghost target = split_on(list@, ',').map_values(|piece: Seq<char>| trimmed(piece));
    while i < pieces.len()
        invariant
            i <= pieces.len(),
            pieces.deep_view() == split_on(list@, ','),
            target == split_on(list@, ',').map_values(|piece: Seq<char>| trimmed(piece)),
            origins.deep_view() == target.subrange(0, i as int),
        decreases pieces.len() - i,
    {
        let entry = String::from_str(trim(pieces[i].as_str()));
        origins.push(entry);
        proof {
            assert(target.subrange(0, i + 1) =~= target.subrange(0, i as int).push(
                target[i as int],
            ));
        }
        i = i + 1;
    }
    origins
}

impl Config {
    /// The address the server binds: host, a colon, port.
    pub open spec fn address(self) -> Seq<char> {
        self.host@ + seq![':'] + decimal_text(self.port as int)
    }

    /// Builds the configuration that `vars` describe. The database URL and
    /// the signing secret must be set, and production wants a secret of at
    /// least [`MIN_PRODUCTION_SECRET_LEN`] bytes; every other variable falls
    /// back to its default where it is unset or unreadable.
    pub fn from_env(vars: EnvVars) -> (r: Result<Config, ConfigError>)
        ensures
            match r {
                Ok(config) => vars.rejection() is None && vars.configures(config),
                Err(e) => vars.rejection() == Some(e),
            },
    {
        let environment = match &vars.app_env {
            Some(name) => Environment::from_str(name.as_str()),
            None => match &vars.environment {
                Some(name) => Environment::from_str(name.as_str()),
                None => Environment::from_str("local"),
            },
        };
        let database_url = match &vars.database_url {
            Some(url) => url.clone(),
            None => { return Err(ConfigError::MissingDatabaseUrl); },
        };
        let jwt_secret = match &vars.jwt_secret {
            Some(secret) => secret.clone(),
            None => { return Err(ConfigError::MissingJwtSecret); },
        };
        if environment.is_production() && jwt_secret.as_str().as_bytes().len()
            < MIN_PRODUCTION_SECRET_LEN {
            return Err(ConfigError::WeakJwtSecret);
        }
        let fallback_port = environment.default_port();
        let port = match &vars.port {
            Some(p) => match parse_u16(p.as_str()) {
                Some(v) => v,
                None => fallback_port,
            },
            None => fallback_port,
        };
        let host = match &vars.host {
            Some(h) => h.clone(),
            None => String::from_str("0.0.0.0"),
        };
        let jwt_expiration_hours = match &vars.jwt_expiration_hours {
            Some(h) => match parse_i64(h.as_str()) {
                Some(v) => v,
                None => DEFAULT_JWT_EXPIRATION_HOURS,
            },
            None => DEFAULT_JWT_EXPIRATION_HOURS,
        };
        let max_ws_connections = match &vars.max_ws_connections {
            Some(m) => match parse_usize(m.as_str()) {
                Some(v) => v,
                None => DEFAULT_MAX_WS_CONNECTIONS,
            },
            None => DEFAULT_MAX_WS_CONNECTIONS,
        };
        let cors_origins = match &vars.cors_origins {
            Some(list) => parse_origins(list.as_str()),
            None => Vec::new(),
        };
        let enable_logging = match &vars.enable_logging {
            Some(flag) => match parse_bool(flag.as_str()) {
                Some(b) => b,
                None => true,
            },
            None => true,
        };
        let config = Config {
            environment,
            database_url,
            jwt_secret,
            port,
            host,
            jwt_expiration_hours,
            max_ws_connections,
            cors_origins,
            enable_logging,
        };
        proof {
            if vars.cors_origins is None {
                assert(config.cors_origins.deep_view() =~= Seq::<Seq<char>>::empty());
            }
        }
        Ok(config)
    }

    /// The address the server binds.
    pub fn server_address(&self) -> (r: String)
        ensures
            r@ == self.address(),
    {
        let mut address = self.host.clone();
        proof {
            reveal_strlit(":");
        }
        address.append(":");
        let port = decimal_string(self.port as i64);
        address.append(port.as_str());
        address
    }

    /// Whether cross-origin requests are allowed from anywhere: no origin is
    /// listed and the environment permits it.
    pub fn allow_all_cors(&self) -> (r: bool)
        ensures
            r == (self.cors_origins@.len() == 0 && self.environment != Environment::Production),
    {
        self.cors_origins.is_empty() && self.environment.cors_permissive()
    }
}

} // verus!
