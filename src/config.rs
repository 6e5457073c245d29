//! Connection settings as the user gives them, and the plan derived from them.

use vstd::prelude::*;
use vstd::utf8::encode_utf8;
use crate::address::{parse_server_name, port_text, resolve, ConfigError, ResolvedAddress};
use crate::text::same_text;

verus! {

/// What the user asks to connect with.
#[derive(Clone, Debug)]
pub struct ConnectionConfig {
    pub server_name: String,
    pub authentication: String,
    pub username: String,
    pub password: String,
    pub database: String,
    pub encrypt: String,
    pub trust_cert: bool,
}

/// The connection settings that are kept for the next start: a
/// `ConnectionConfig` without its password, and whether the password is kept
/// apart in the system's secret store.
#[derive(Clone, Debug)]
pub struct SavedConnection {
    pub server_name: String,
    pub authentication: String,
    pub username: String,
    pub database: String,
    pub encrypt: String,
    pub trust_cert: bool,
    pub remember_password: bool,
}

impl SavedConnection {
    /// The settings of `config` to keep, without its password.
    pub fn from_config(config: &ConnectionConfig, remember_password: bool) -> (r: SavedConnection)
        ensures
            r.server_name@ == config.server_name@,
            r.authentication@ == config.authentication@,
            r.username@ == config.username@,
            r.database@ == config.database@,
            r.encrypt@ == config.encrypt@,
            r.trust_cert == config.trust_cert,
            r.remember_password == remember_password,
    {
        SavedConnection {
            server_name: config.server_name.clone(),
            authentication: config.authentication.clone(),
            username: config.username.clone(),
            database: config.database.clone(),
            encrypt: config.encrypt.clone(),
            trust_cert: config.trust_cert,
            remember_password,
        }
    }
}

/// Whether traffic must be encrypted.
#[derive(Clone, Copy, Debug, PartialEq, Eq, Structural)]
pub enum EncryptionPolicy {
    Off,
    Required,
}

/// `"optional"` turns encryption off; every other mode requires it.
pub open spec fn policy_of(mode: Seq<char>) -> EncryptionPolicy {
    if mode == "optional"@ {
        EncryptionPolicy::Off
    } else {
        EncryptionPolicy::Required
    }
}

/// The encryption policy that `mode` asks for, as `policy_of` describes.
pub fn encryption_policy(mode: &str) -> (r: EncryptionPolicy)
    ensures
        r == policy_of(mode@),
{
    if same_text(mode, "optional") {
        EncryptionPolicy::Off
    } else {
        EncryptionPolicy::Required
    }
}

/// Whether `mode` names the one authentication scheme that is supported:
/// a login and password checked by the server.
pub open spec fn is_sql_login(mode: Seq<char>) -> bool {
    mode == "sql"@
}

/// Everything needed to open a connection, checked and resolved.
#[derive(Clone, Debug)]
pub struct ConnectPlan {
    pub address: ResolvedAddress,
    /// The database to open; `None` for the server's default.
    pub database: Option<String>,
    pub username: String,
    pub password: String,
    pub encryption: EncryptionPolicy,
    pub trust_cert: bool,
}

/// Why a connection could not be planned.
#[derive(Clone, Debug)]
pub enum PlanError {
    Config(ConfigError),
    /// The authentication scheme, named here, is not supported.
    UnsupportedAuth(String),
}

impl PlanError {
    /// A message for the user.
    pub fn message(&self) -> (r: String)
        ensures
            self matches PlanError::Config(ConfigError::InvalidPort(t)) ==> r@ == "Invalid port: "@
                + t@,
            self matches PlanError::UnsupportedAuth(m) ==> r@
                == "Authentication scheme is not supported: "@ + m@,
    {
        match self {
            PlanError::Config(e) => e.message(),
            PlanError::UnsupportedAuth(m) => {
                let mut r = String::from_str("Authentication scheme is not supported: ");
                r.append(m.as_str());
                r
            },
        }
    }
}

/// Why opening a planned connection failed, by the stage that failed.
#[derive(Clone, Debug)]
pub enum EstablishError {
    /// Looking up the named instance of `server` failed.
    Discovery { server: String, cause: String },
    /// The TCP connection to `target` failed.
    Dial { target: String, cause: String },
    /// Turning off send coalescing on the socket failed.
    SocketOption { cause: String },
    /// The server was reached but the login or protocol handshake failed.
    Handshake { cause: String },
}

impl EstablishError {
    /// A message for the user that names the failed stage and its cause.
    pub fn message(&self) -> (r: String)
        ensures
            self matches EstablishError::Discovery { server, cause } ==> r@
                == "Named instance resolution failed for '"@ + server@ + "': "@ + cause@,
            self matches EstablishError::Dial { target, cause } ==> r@ == "TCP connection to '"@
                + target@ + "' failed: "@ + cause@,
            self matches EstablishError::SocketOption { cause } ==> r@
                == "Failed to set TCP_NODELAY: "@ + cause@,
            self matches EstablishError::Handshake { cause } ==> r@
                == "SQL Server connection failed: "@ + cause@,
    {
        match self {
            EstablishError::Discovery { server, cause } => {
                let mut r = String::from_str("Named instance resolution failed for '");
                r.append(server.as_str());
                r.append("': ");
                r.append(cause.as_str());
                r
            },
            EstablishError::Dial { target, cause } => {
                let mut r = String::from_str("TCP connection to '");
                r.append(target.as_str());
                r.append("' failed: ");
                r.append(cause.as_str());
                r
            },
            EstablishError::SocketOption { cause } => {
                let mut r = String::from_str("Failed to set TCP_NODELAY: ");
                r.append(cause.as_str());
                r
            },
            EstablishError::Handshake { cause } => {
                let mut r = String::from_str("SQL Server connection failed: ");
                r.append(cause.as_str());
                r
            },
        }
    }
}

/// The database that a plan opens for the name `d`.
pub open spec fn database_choice(d: Seq<char>) -> Option<Seq<char>> {
    if d.len() == 0 {
        None
    } else {
        Some(d)
    }
}

pub open spec fn opt_view(o: Option<String>) -> Option<Seq<char>> {
    match o {
        Some(s) => Some(s@),
        None => None,
    }
}

/// Checks `config` and resolves its address, without any network access.
/// A malformed port is reported first, then an unsupported scheme.
pub fn plan_connection(config: &ConnectionConfig) -> (r: Result<ConnectPlan, PlanError>)
    ensures
        match resolve(encode_utf8(config.server_name@)) {
            None => r matches Err(PlanError::Config(ConfigError::InvalidPort(t))) && port_text(
                encode_utf8(config.server_name@),
            ) == Some(t@),
            Some(v) => if !is_sql_login(config.authentication@) {
                r matches Err(PlanError::UnsupportedAuth(m)) && m@ == config.authentication@
            } else {
                r matches Ok(p) && p.address@ == v && opt_view(p.database) == database_choice(
                    config.database@,
                ) && p.username@ == config.username@ && p.password@ == config.password@
                    && p.encryption == policy_of(config.encrypt@) && p.trust_cert
                    == config.trust_cert
            },
        },
{
    let address = match parse_server_name(config.server_name.as_str()) {
        Ok(a) => a,
        Err(e) => {
            return Err(PlanError::Config(e));
        },
    };
    if !same_text(config.authentication.as_str(), "sql") {
        return Err(PlanError::UnsupportedAuth(config.authentication.clone()));
    }
    let database = if config.database.as_str().is_empty() {
        None
    } else {
        Some(config.database.clone())
    };
    Ok(ConnectPlan {
        address,
        database,
        username: config.username.clone(),
        password: config.password.clone(),
        encryption: encryption_policy(config.encrypt.as_str()),
        trust_cert: config.trust_cert,
    })
}

} // verus!
