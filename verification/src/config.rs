//! The configuration of the gateway, assembled from its configuration
//! file and the variables of its environment. Where both set an option,
//! the environment wins.

use vstd::prelude::*;
use crate::number::{parse_decimal, parse_u64};
use crate::text::same_text;

verus! {

/// The seconds a request waits for a connection, where none are set.
pub const DEFAULT_POOL_WAIT_SECONDS: u64 = 5;

/// The seconds a command may take, where none are set.
pub const DEFAULT_COMMAND_TIMEOUT_SECONDS: u64 = 5;

/// The seconds the discovery of a service may take.
pub const DISCOVERY_TIMEOUT_SECONDS: u64 = 10;

/// The seconds a health probe may take.
pub const HEALTH_PROBE_TIMEOUT_SECONDS: u64 = 2;

/// A variable of the environment.
#[derive(Debug, Clone, PartialEq, Eq)]
pub struct EnvVar {
    pub name: String,
    pub value: String,
}

/// A setting of the configuration file: the name of an option with its
/// section before it, as in `server.port`, and its value as text.
#[derive(Debug, Clone, PartialEq, Eq)]
pub struct FileSetting {
    pub key: String,
    pub value: String,
}

/// Why no configuration could be assembled.
#[derive(Debug, Clone, PartialEq, Eq)]
pub enum ConfigError {
    /// Neither the environment nor the file sets the option.
    Missing(String),
    /// The option does not hold what it must.
    Invalid(String),
}

/// The mathematical value of a [`ConfigError`].
pub ghost enum ConfigErrorModel {
    Missing(Seq<char>),
    Invalid(Seq<char>),
}

impl View for ConfigError {
    type V = ConfigErrorModel;

    open spec fn view(&self) -> ConfigErrorModel {
        match self {
            ConfigError::Missing(name) => ConfigErrorModel::Missing(name@),
            ConfigError::Invalid(name) => ConfigErrorModel::Invalid(name@),
        }
    }
}

/// Server configuration.
#[derive(Debug, Clone, PartialEq, Eq)]
pub struct ServerConfig {
    pub port: u16,
}

/// Redis configuration.
#[derive(Debug, Clone, PartialEq, Eq)]
pub struct RedisConfig {
    pub url: String,
    pub pool_size: usize,
    pub pool_max_size: usize,
    pub pool_timeout_seconds: u64,
    pub default_password: Option<String>,
}

/// Logging configuration.
#[derive(Debug, Clone, PartialEq, Eq)]
pub struct LoggingConfig {
    pub level: String,
}

/// The configuration of the gateway process.
#[derive(Debug, Clone, PartialEq, Eq)]
pub struct Config {
    pub server: ServerConfig,
    pub redis: RedisConfig,
    pub logging: LoggingConfig,
}

/// The mathematical value of a [`Config`].
pub ghost struct ConfigModel {
    pub port: int,
    pub url: Seq<char>,
    pub pool_size: int,
    pub pool_max_size: int,
    pub pool_timeout_seconds: int,
    pub default_password: Option<Seq<char>>,
    pub level: Seq<char>,
}

impl View for Config {
    type V = ConfigModel;

    open spec fn view(&self) -> ConfigModel {
        ConfigModel {
            port: self.server.port as int,
            url: self.redis.url@,
            pool_size: self.redis.pool_size as int,
            pool_max_size: self.redis.pool_max_size as int,
            pool_timeout_seconds: self.redis.pool_timeout_seconds as int,
            default_password: match self.redis.default_password {
                Some(p) => Some(p@),
                None => None,
            },
            level: self.logging.level@,
        }
    }
}

/// What the environment holds under a name: the value of the first
/// variable of that name.
pub open spec fn setting(vars: Seq<EnvVar>, name: Seq<char>) -> Option<Seq<char>>
    decreases vars.len(),
{
    if vars.len() == 0 {
        None
    } else if vars[0].name@ == name {
        Some(vars[0].value@)
    } else {
        setting(vars.drop_first(), name)
    }
}

/// What the file holds under a key: the value of the first setting of
/// that key.
pub open spec fn file_setting(file: Seq<FileSetting>, key: Seq<char>) -> Option<Seq<char>>
    decreases file.len(),
{
    if file.len() == 0 {
        None
    } else if file[0].key@ == key {
        Some(file[0].value@)
    } else {
        file_setting(file.drop_first(), key)
    }
}

/// The value of an option: what the environment holds under the variable
/// of the option; where it holds nothing, what the file holds under the
/// key of the option.
pub open spec fn option_value(
    file: Seq<FileSetting>,
    vars: Seq<EnvVar>,
    key: Seq<char>,
    variable: Seq<char>,
) -> Option<Seq<char>> {
    match setting(vars, variable) {
        Some(value) => Some(value),
        None => file_setting(file, key),
    }
}

/// A text that must be set; the option that is not set is named by its
/// key.
pub open spec fn required_text(value: Option<Seq<char>>, key: Seq<char>) -> Result<
    Seq<char>,
    ConfigErrorModel,
> {
    match value {
        Some(value) => Ok(value),
        None => Err(ConfigErrorModel::Missing(key)),
    }
}

/// A number that must be set, and must be a decimal number up to `max`.
pub open spec fn required_number(value: Option<Seq<char>>, key: Seq<char>, max: int) -> Result<
    int,
    ConfigErrorModel,
> {
    match value {
        None => Err(ConfigErrorModel::Missing(key)),
        Some(value) => match parse_decimal(value, 0, max) {
            Some(n) => Ok(n),
            None => Err(ConfigErrorModel::Invalid(key)),
        },
    }
}

/// A number that may be set, and must then be a decimal number up to
/// `max`.
pub open spec fn optional_number(value: Option<Seq<char>>, key: Seq<char>, max: int) -> Result<
    Option<int>,
    ConfigErrorModel,
> {
    match value {
        None => Ok(None),
        Some(value) => match parse_decimal(value, 0, max) {
            Some(n) => Ok(Some(n)),
            None => Err(ConfigErrorModel::Invalid(key)),
        },
    }
}

/// The configuration that a file and an environment describe, or the
/// first option that is missing or invalid, in the order port, URL, pool
/// size, largest pool size, pool timeout, log level. The default password
/// may be missing. The variable of an option is `APP`, then its section
/// and its name in capital letters, with `__` between them.
pub open spec fn config_of(file: Seq<FileSetting>, vars: Seq<EnvVar>) -> Result<
    ConfigModel,
    ConfigErrorModel,
> {
    match required_number(
        option_value(file, vars, "server.port"@, "APP__SERVER__PORT"@),
        "server.port"@,
        u16::MAX as int,
    ) {
        Err(e) => Err(e),
        Ok(port) => match required_text(
            option_value(file, vars, "redis.url"@, "APP__REDIS__URL"@),
            "redis.url"@,
        ) {
            Err(e) => Err(e),
            Ok(url) => match required_number(
                option_value(file, vars, "redis.pool_size"@, "APP__REDIS__POOL_SIZE"@),
                "redis.pool_size"@,
                usize::MAX as int,
            ) {
                Err(e) => Err(e),
                Ok(pool_size) => match required_number(
                    option_value(
                        file,
                        vars,
                        "redis.pool_max_size"@,
                        "APP__REDIS__POOL_MAX_SIZE"@,
                    ),
                    "redis.pool_max_size"@,
                    usize::MAX as int,
                ) {
                    Err(e) => Err(e),
                    Ok(pool_max_size) => match required_number(
                        option_value(
                            file,
                            vars,
                            "redis.pool_timeout_seconds"@,
                            "APP__REDIS__POOL_TIMEOUT_SECONDS"@,
                        ),
                        "redis.pool_timeout_seconds"@,
                        u64::MAX as int,
                    ) {
                        Err(e) => Err(e),
                        Ok(pool_timeout_seconds) => match required_text(
                            option_value(file, vars, "logging.level"@, "APP__LOGGING__LEVEL"@),
                            "logging.level"@,
                        ) {
                            Err(e) => Err(e),
                            Ok(level) => Ok(
                                ConfigModel {
                                    port,
                                    url,
                                    pool_size,
                                    pool_max_size,
                                    pool_timeout_seconds,
                                    default_password: option_value(
                                        file,
                                        vars,
                                        "redis.default_password"@,
                                        "APP__REDIS__DEFAULT_PASSWORD"@,
                                    ),
                                    level,
                                },
                            ),
                        },
                    },
                },
            },
        },
    }
}

/// What the environment holds under a name.
pub fn find_setting(vars: &Vec<EnvVar>, name: &str) -> (r: Option<String>)
    ensures
        (match r {
            Some(value) => Some(value@),
            None => None,
        }) == setting(vars@, name@),
{
    let mut i: usize = 0;
    assert(vars@.skip(0) == vars@);
    while i < vars.len()
        invariant
            i <= vars.len(),
            setting(vars@, name@) == setting(vars@.skip(i as int), name@),
        decreases vars.len() - i,
    {
        assert(vars@.skip(i as int)[0] == vars@[i as int]);
        if same_text(vars[i].name.as_str(), name) {
            return Some(vars[i].value.clone());
        }
        assert(vars@.skip(i as int).drop_first() == vars@.skip(i + 1));
        i += 1;
    }
    assert(vars@.skip(i as int).len() == 0);
    None
}

/// What the file holds under a key.
pub fn find_file_setting(file: &Vec<FileSetting>, key: &str) -> (r: Option<String>)
    ensures
        (match r {
            Some(value) => Some(value@),
            None => None,
        }) == file_setting(file@, key@),
{
    let mut i: usize = 0;
    assert(file@.skip(0) == file@);
    while i < file.len()
        invariant
            i <= file.len(),
            file_setting(file@, key@) == file_setting(file@.skip(i as int), key@),
        decreases file.len() - i,
    {
        assert(file@.skip(i as int)[0] == file@[i as int]);
        if same_text(file[i].key.as_str(), key) {
            return Some(file[i].value.clone());
        }
        assert(file@.skip(i as int).drop_first() == file@.skip(i + 1));
        i += 1;
    }
    assert(file@.skip(i as int).len() == 0);
    None
}

/// The value of an option: that of the environment before that of the
/// file.
pub fn find_option(file: &Vec<FileSetting>, vars: &Vec<EnvVar>, key: &str, variable: &str) -> (r:
    Option<String>)
    ensures
        (match r {
            Some(value) => Some(value@),
            None => None,
        }) == option_value(file@, vars@, key@, variable@),
{
    match find_setting(vars, variable) {
        Some(value) => Some(value),
        None => find_file_setting(file, key),
    }
}

fn require_text(value: Option<String>, key: &str) -> (r: Result<String, ConfigError>)
    ensures
        (match r {
            Ok(text) => Ok(text@),
            Err(e) => Err(e@),
        }) == required_text(
            match value {
                Some(v) => Some(v@),
                None => None,
            },
            key@,
        ),
{
    match value {
        Some(value) => Ok(value),
        None => Err(ConfigError::Missing(key.to_string())),
    }
}

fn require_number(value: Option<String>, key: &str, max: u64) -> (r: Result<u64, ConfigError>)
    ensures
        (match r {
            Ok(n) => Ok(n as int),
            Err(e) => Err(e@),
        }) == required_number(
            match value {
                Some(v) => Some(v@),
                None => None,
            },
            key@,
            max as int,
        ),
{
    match value {
        None => Err(ConfigError::Missing(key.to_string())),
        Some(value) => match parse_u64(value.as_str()) {
            Some(n) => if n <= max {
                Ok(n)
            } else {
                Err(ConfigError::Invalid(key.to_string()))
            },
            None => Err(ConfigError::Invalid(key.to_string())),
        },
    }
}

fn allow_number(value: Option<String>, key: &str, max: u64) -> (r: Result<Option<u64>, ConfigError>)
    ensures
        (match r {
            Ok(Some(n)) => Ok(Some(n as int)),
            Ok(None) => Ok(None),
            Err(e) => Err(e@),
        }) == optional_number(
            match value {
                Some(v) => Some(v@),
                None => None,
            },
            key@,
            max as int,
        ),
{
    match value {
        None => Ok(None),
        Some(value) => match parse_u64(value.as_str()) {
            Some(n) => if n <= max {
                Ok(Some(n))
            } else {
                Err(ConfigError::Invalid(key.to_string()))
            },
            None => Err(ConfigError::Invalid(key.to_string())),
        },
    }
}

impl Config {
    /// Assembles the configuration from the settings of the configuration
    /// file and the variables of the environment. Where both set an
    /// option, the environment wins.
    pub fn from_env(file: &Vec<FileSetting>, vars: &Vec<EnvVar>) -> (r: Result<
        Config,
        ConfigError,
    >)
        ensures
            (match r {
                Ok(config) => Ok(config@),
                Err(e) => Err(e@),
            }) == config_of(file@, vars@),
    {
        let port = match require_number(
            find_option(file, vars, "server.port", "APP__SERVER__PORT"),
            "server.port",
            65535,
        ) {
            Ok(n) => n as u16,
            Err(e) => {
                return Err(e);
            },
        };
        let url = match require_text(
            find_option(file, vars, "redis.url", "APP__REDIS__URL"),
            "redis.url",
        ) {
            Ok(value) => value,
            Err(e) => {
                return Err(e);
            },
        };
        let pool_size = match require_number(
            find_option(file, vars, "redis.pool_size", "APP__REDIS__POOL_SIZE"),
            "redis.pool_size",
            usize::MAX as u64,
        ) {
            Ok(n) => n as usize,
            Err(e) => {
                return Err(e);
            },
        };
        let pool_max_size = match require_number(
            find_option(file, vars, "redis.pool_max_size", "APP__REDIS__POOL_MAX_SIZE"),
            "redis.pool_max_size",
            usize::MAX as u64,
        ) {
            Ok(n) => n as usize,
            Err(e) => {
                return Err(e);
            },
        };
        let pool_timeout_seconds = match require_number(
            find_option(
                file,
                vars,
                "redis.pool_timeout_seconds",
                "APP__REDIS__POOL_TIMEOUT_SECONDS",
            ),
            "redis.pool_timeout_seconds",
            u64::MAX,
        ) {
            Ok(n) => n,
            Err(e) => {
                return Err(e);
            },
        };
        let level = match require_text(
            find_option(file, vars, "logging.level", "APP__LOGGING__LEVEL"),
            "logging.level",
        ) {
            Ok(value) => value,
            Err(e) => {
                return Err(e);
            },
        };
        let default_password = find_option(
            file,
            vars,
            "redis.default_password",
            "APP__REDIS__DEFAULT_PASSWORD",
        );
        Ok(
            Config {
                server: ServerConfig { port },
                redis: RedisConfig {
                    url,
                    pool_size,
                    pool_max_size,
                    pool_timeout_seconds,
                    default_password,
                },
                logging: LoggingConfig { level },
            },
        )
    }
}

/// Where a file and an environment set the same option, the value of the
/// environment is the value of the option; where the environment does not
/// set it, the value of the file is.
pub proof fn lemma_environment_overrides_file(
    file: Seq<FileSetting>,
    vars: Seq<EnvVar>,
    key: Seq<char>,
    variable: Seq<char>,
)
    ensures
        setting(vars, variable) is Some ==> option_value(file, vars, key, variable) == setting(
            vars,
            variable,
        ),
        setting(vars, variable) is None ==> option_value(file, vars, key, variable)
            == file_setting(file, key),
{
}

/// What the request path needs to know of its surroundings.
#[derive(Debug, Clone, PartialEq, Eq)]
pub struct CoreSettings {
    /// The secret that signs and verifies tokens.
    pub jwt_secret: String,
    /// Whether the gateway runs inside the cluster.
    pub in_cluster: bool,
    pub default_password: Option<String>,
    /// The largest size of a pool; the pool's own choice where none is
    /// set.
    pub pool_max_size: Option<u64>,
    pub pool_wait_seconds: u64,
    pub command_timeout_seconds: u64,
}

/// The mathematical value of [`CoreSettings`].
pub ghost struct CoreSettingsModel {
    pub jwt_secret: Seq<char>,
    pub in_cluster: bool,
    pub default_password: Option<Seq<char>>,
    pub pool_max_size: Option<int>,
    pub pool_wait_seconds: int,
    pub command_timeout_seconds: int,
}

impl View for CoreSettings {
    type V = CoreSettingsModel;

    open spec fn view(&self) -> CoreSettingsModel {
        CoreSettingsModel {
            jwt_secret: self.jwt_secret@,
            in_cluster: self.in_cluster,
            default_password: match self.default_password {
                Some(p) => Some(p@),
                None => None,
            },
            pool_max_size: match self.pool_max_size {
                Some(n) => Some(n as int),
                None => None,
            },
            pool_wait_seconds: self.pool_wait_seconds as int,
            command_timeout_seconds: self.command_timeout_seconds as int,
        }
    }
}

/// The number that is set, or `default` where none is.
pub open spec fn or_default(n: Option<int>, default: int) -> int {
    match n {
        Some(n) => n,
        None => default,
    }
}

/// The settings that a file and an environment describe. The secret must
/// be set, as `auth.jwt_secret` or as the variable `JWT_SECRET`. The
/// gateway runs inside the cluster exactly where the variable
/// `KUBERNETES_SERVICE_HOST` is set. The default password
/// (`redis.default_password`, `REDIS_DEFAULT_PASSWORD`), the largest pool
/// size (`redis.pool_max_size`, `POOL_MAX_SIZE`), the wait for a connection
/// (`redis.pool_wait_seconds`, `POOL_WAIT_SECONDS`) and the timeout of a
/// command (`command.timeout_seconds`, `COMMAND_TIMEOUT_SECONDS`) may be
/// set; the two timeouts are five seconds where they are not.
pub open spec fn core_settings_of(file: Seq<FileSetting>, vars: Seq<EnvVar>) -> Result<
    CoreSettingsModel,
    ConfigErrorModel,
> {
    match required_text(
        option_value(file, vars, "auth.jwt_secret"@, "JWT_SECRET"@),
        "auth.jwt_secret"@,
    ) {
        Err(e) => Err(e),
        Ok(jwt_secret) => match optional_number(
            option_value(file, vars, "redis.pool_max_size"@, "POOL_MAX_SIZE"@),
            "redis.pool_max_size"@,
            u64::MAX as int,
        ) {
            Err(e) => Err(e),
            Ok(pool_max_size) => match optional_number(
                option_value(file, vars, "redis.pool_wait_seconds"@, "POOL_WAIT_SECONDS"@),
                "redis.pool_wait_seconds"@,
                u64::MAX as int,
            ) {
                Err(e) => Err(e),
                Ok(wait) => match optional_number(
                    option_value(
                        file,
                        vars,
                        "command.timeout_seconds"@,
                        "COMMAND_TIMEOUT_SECONDS"@,
                    ),
                    "command.timeout_seconds"@,
                    u64::MAX as int,
                ) {
                    Err(e) => Err(e),
                    Ok(timeout) => Ok(
                        CoreSettingsModel {
                            jwt_secret,
                            in_cluster: setting(vars, "KUBERNETES_SERVICE_HOST"@) is Some,
                            default_password: option_value(
                                file,
                                vars,
                                "redis.default_password"@,
                                "REDIS_DEFAULT_PASSWORD"@,
                            ),
                            pool_max_size,
                            pool_wait_seconds: or_default(
                                wait,
                                DEFAULT_POOL_WAIT_SECONDS as int,
                            ),
                            command_timeout_seconds: or_default(
                                timeout,
                                DEFAULT_COMMAND_TIMEOUT_SECONDS as int,
                            ),
                        },
                    ),
                },
            },
        },
    }
}

impl CoreSettings {
    /// Assembles the settings from the settings of the configuration file
    /// and the variables of the environment. Where both set an option, the
    /// environment wins.
    pub fn from_env(file: &Vec<FileSetting>, vars: &Vec<EnvVar>) -> (r: Result<
        CoreSettings,
        ConfigError,
    >)
        ensures
            (match r {
                Ok(settings) => Ok(settings@),
                Err(e) => Err(e@),
            }) == core_settings_of(file@, vars@),
    {
        let jwt_secret = match require_text(
            find_option(file, vars, "auth.jwt_secret", "JWT_SECRET"),
            "auth.jwt_secret",
        ) {
            Ok(value) => value,
            Err(e) => {
                return Err(e);
            },
        };
        let pool_max_size = match allow_number(
            find_option(file, vars, "redis.pool_max_size", "POOL_MAX_SIZE"),
            "redis.pool_max_size",
            u64::MAX,
        ) {
            Ok(n) => n,
            Err(e) => {
                return Err(e);
            },
        };
        let wait = match allow_number(
            find_option(file, vars, "redis.pool_wait_seconds", "POOL_WAIT_SECONDS"),
            "redis.pool_wait_seconds",
            u64::MAX,
        ) {
            Ok(n) => n,
            Err(e) => {
                return Err(e);
            },
        };
        let timeout = match allow_number(
            find_option(file, vars, "command.timeout_seconds", "COMMAND_TIMEOUT_SECONDS"),
            "command.timeout_seconds",
            u64::MAX,
        ) {
            Ok(n) => n,
            Err(e) => {
                return Err(e);
            },
        };
        let in_cluster = find_setting(vars, "KUBERNETES_SERVICE_HOST").is_some();
        let default_password = find_option(
            file,
            vars,
            "redis.default_password",
            "REDIS_DEFAULT_PASSWORD",
        );
        Ok(
            CoreSettings {
                jwt_secret,
                in_cluster,
                default_password,
                pool_max_size,
                pool_wait_seconds: match wait {
                    Some(n) => n,
                    None => DEFAULT_POOL_WAIT_SECONDS,
                },
                command_timeout_seconds: match timeout {
                    Some(n) => n,
                    None => DEFAULT_COMMAND_TIMEOUT_SECONDS,
                },
            },
        )
    }

    /// The most seconds that a request may take: the sum of the four
    /// timeouts, or the largest number where the sum is beyond it.
    pub fn request_budget_seconds(&self) -> (r: u64)
        ensures
            r == (if self.pool_wait_seconds + self.command_timeout_seconds
                + DISCOVERY_TIMEOUT_SECONDS + HEALTH_PROBE_TIMEOUT_SECONDS <= u64::MAX {
                self.pool_wait_seconds + self.command_timeout_seconds + DISCOVERY_TIMEOUT_SECONDS
                    + HEALTH_PROBE_TIMEOUT_SECONDS
            } else {
                u64::MAX as int
            }),
    {
        let fixed: u64 = DISCOVERY_TIMEOUT_SECONDS + HEALTH_PROBE_TIMEOUT_SECONDS;
        match self.pool_wait_seconds.checked_add(self.command_timeout_seconds) {
            Some(sum) => match sum.checked_add(fixed) {
                Some(total) => total,
                None => u64::MAX,
            },
            None => u64::MAX,
        }
    }
}

} // verus!
