use vstd::prelude::*;
use crate::env_store::EnvStore;

verus! {

/// Name of the variable that holds the HC3 host.
pub open spec fn host_var() -> Seq<char> {
    "HC3_HOST"@
}

/// Name of the variable that holds the HC3 user.
pub open spec fn user_var() -> Seq<char> {
    "HC3_USER"@
}

/// Name of the variable that holds the HC3 password.
pub open spec fn password_var() -> Seq<char> {
    "HC3_PASSWORD"@
}

/// Name of the variable that holds the HC3 protocol.
pub open spec fn protocol_var() -> Seq<char> {
    "HC3_PROTOCOL"@
}

/// Protocol used when none is configured.
pub open spec fn default_protocol() -> Seq<char> {
    "http"@
}

/// Remediation hint carried by an incomplete configuration.
pub open spec fn incomplete_hint() -> Seq<char> {
    "HC3 credentials not configured. Please set up .env file."@
}

/// The value of `k`, or the empty string when it is unset.
pub open spec fn value_or_empty(m: Map<Seq<char>, Seq<char>>, k: Seq<char>) -> Seq<char> {
    if m.contains_key(k) {
        m[k]
    } else {
        Seq::empty()
    }
}

/// Abstract content of a [`Config`].
pub struct ConfigModel {
    pub host: Seq<char>,
    pub user: Seq<char>,
    pub password: Seq<char>,
    pub protocol: Seq<char>,
}

/// The configuration that the environment `m` resolves to, if it is complete.
pub open spec fn resolve_spec(m: Map<Seq<char>, Seq<char>>) -> Option<ConfigModel> {
    let host = value_or_empty(m, host_var());
    let user = value_or_empty(m, user_var());
    let password = value_or_empty(m, password_var());
    let protocol = if m.contains_key(protocol_var()) {
        m[protocol_var()]
    } else {
        default_protocol()
    };
    if host.len() == 0 || user.len() == 0 || password.len() == 0 {
        None
    } else {
        Some(ConfigModel { host, user, password, protocol })
    }
}

/// Connection settings of the HC3 controller.
#[derive(Clone, Debug, PartialEq, Eq)]
pub struct Config {
    pub host: String,
    pub user: String,
    pub password: String,
    pub protocol: String,
}

impl View for Config {
    type V = ConfigModel;

    open spec fn view(&self) -> ConfigModel {
        ConfigModel {
            host: self.host@,
            user: self.user@,
            password: self.password@,
            protocol: self.protocol@,
        }
    }
}

/// Why no configuration could be resolved.
#[derive(Clone, Copy, Debug, PartialEq, Eq, Structural)]
pub enum ConfigError {
    /// Host, user or password is unset or empty.
    ConfigurationIncomplete,
}

impl ConfigError {
    /// Human-readable remediation hint.
    pub fn message(&self) -> (r: String)
        ensures
            r@ == incomplete_hint(),
    {
        match self {
            ConfigError::ConfigurationIncomplete => {
                String::from_str("HC3 credentials not configured. Please set up .env file.")
            },
        }
    }
}

/// The value of `key`, or the empty string when it is unset.
fn value_or_default(env: &EnvStore, key: &str) -> (r: String)
    requires
        env.wf(),
    ensures
        r@ == value_or_empty(env@, key@),
{
    match env.get(key) {
        Some(v) => v,
        None => String::new(),
    }
}

/// Reads the four configuration variables of `env`; the protocol defaults to
/// `http`, and an unset or empty host, user or password is an error.
pub fn resolve(env: &EnvStore) -> (r: Result<Config, ConfigError>)
    requires
        env.wf(),
    ensures
        match r {
            Ok(c) => resolve_spec(env@) == Some(c@),
            Err(e) => resolve_spec(env@).is_none() && e == ConfigError::ConfigurationIncomplete,
        },
{
    proof {
        reveal_strlit("HC3_HOST");
        reveal_strlit("HC3_USER");
        reveal_strlit("HC3_PASSWORD");
        reveal_strlit("HC3_PROTOCOL");
        reveal_strlit("http");
    }
    let host = value_or_default(env, "HC3_HOST");
    let user = value_or_default(env, "HC3_USER");
    let password = value_or_default(env, "HC3_PASSWORD");
    let protocol = match env.get("HC3_PROTOCOL") {
        Some(p) => p,
        None => String::from_str("http"),
    };
    if host.as_str().is_empty() || user.as_str().is_empty() || password.as_str().is_empty() {
        return Err(ConfigError::ConfigurationIncomplete);
    }
    Ok(Config { host, user, password, protocol })
}

/// The configuration command: the resolved configuration, or the remediation
/// hint as the error text.
pub fn get_hc3_config(env: &EnvStore) -> (r: Result<Config, String>)
    requires
        env.wf(),
    ensures
        match r {
            Ok(c) => resolve_spec(env@) == Some(c@),
            Err(msg) => resolve_spec(env@).is_none() && msg@ == incomplete_hint(),
        },
{
    match resolve(env) {
        Ok(c) => Ok(c),
        Err(e) => Err(e.message()),
    }
}

/// One line of the presence summary: the variable's name and whether it is set.
pub open spec fn presence_line(name: Seq<char>, set: bool) -> Seq<char> {
    name + ": "@ + if set {
        "set"@
    } else {
        "NOT SET"@
    }
}

fn presence_of(env: &EnvStore, name: &str) -> (r: String)
    requires
        env.wf(),
    ensures
        r@ == presence_line(name@, env@.contains_key(name@)),
{
    let line = String::from_str(name).concat(": ");
    if env.contains(name) {
        line.concat("set")
    } else {
        line.concat("NOT SET")
    }
}

/// Which of the four configuration variables are set, one line each, without
/// their values: host, user, password, protocol.
pub fn presence_summary(env: &EnvStore) -> (r: Vec<String>)
    requires
        env.wf(),
    ensures
        r@.len() == 4,
        r@[0]@ == presence_line(host_var(), env@.contains_key(host_var())),
        r@[1]@ == presence_line(user_var(), env@.contains_key(user_var())),
        r@[2]@ == presence_line(password_var(), env@.contains_key(password_var())),
        r@[3]@ == presence_line(protocol_var(), env@.contains_key(protocol_var())),
{
    let mut r: Vec<String> = Vec::new();
    r.push(presence_of(env, "HC3_HOST"));
    r.push(presence_of(env, "HC3_USER"));
    r.push(presence_of(env, "HC3_PASSWORD"));
    r.push(presence_of(env, "HC3_PROTOCOL"));
    r
}

} // verus!
