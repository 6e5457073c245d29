//! The database driver's connection settings, built from a `ConnectPlan`.

use vstd::prelude::*;
use crate::config::{opt_view, ConnectPlan, EncryptionPolicy};

verus! {

#[verifier::external_type_specification]
#[verifier::external_body]
pub struct ExDriverConfig(tiberius::Config);

/// What has been set on a driver configuration; `None` and `false` leave the
/// driver's default in place.
pub ghost struct DriverSettings {
    pub host: Option<Seq<char>>,
    pub port: Option<u16>,
    pub instance: Option<Seq<char>>,
    pub database: Option<Seq<char>>,
    /// User name and password of a login checked by the server.
    pub login: Option<(Seq<char>, Seq<char>)>,
    pub encryption: Option<EncryptionPolicy>,
    /// Whether the server's certificate is accepted unchecked.
    pub trust_all: bool,
}

/// The settings of a fresh driver configuration.
pub open spec fn default_settings() -> DriverSettings {
    DriverSettings {
        host: None,
        port: None,
        instance: None,
        database: None,
        login: None,
        encryption: None,
        trust_all: false,
    }
}

/// The settings that open the connection `plan` describes.
pub open spec fn settings_for(plan: ConnectPlan) -> DriverSettings {
    DriverSettings {
        host: Some(plan.address.host@),
        port: Some(plan.address.port),
        instance: opt_view(plan.address.instance),
        database: opt_view(plan.database),
        login: Some((plan.username@, plan.password@)),
        encryption: Some(plan.encryption),
        trust_all: plan.trust_cert,
    }
}

/// A driver configuration, with what has been set on it.
pub struct DriverConfig {
    config: tiberius::Config,
    settings: Ghost<DriverSettings>,
}

impl DriverConfig {
    pub closed spec fn settings(&self) -> DriverSettings {
        self.settings@
    }

    /// The driver's own configuration value.
    pub fn config(&self) -> &tiberius::Config {
        &self.config
    }

    /// The driver's own configuration value, taken out.
    pub fn into_config(self) -> tiberius::Config {
        self.config
    }
}

/// Relies on `tiberius::Config::new`: settings with the driver's defaults.
#[verifier::external_body]
fn new_driver_config() -> (r: tiberius::Config) {
    tiberius::Config::new()
}

/// Relies on `tiberius::Config::host`, which stores the host name.
#[verifier::external_body]
fn set_host(c: &mut DriverConfig, host: &str)
    ensures
        final(c).settings() == (DriverSettings { host: Some(host@), ..old(c).settings() }),
{
    c.config.host(host)
}

/// Relies on `tiberius::Config::port`, which stores the port.
#[verifier::external_body]
fn set_port(c: &mut DriverConfig, port: u16)
    ensures
        final(c).settings() == (DriverSettings { port: Some(port), ..old(c).settings() }),
{
    c.config.port(port)
}

/// Relies on `tiberius::Config::instance_name`, which stores the name of the
/// instance to look up through the discovery service.
#[verifier::external_body]
fn set_instance_name(c: &mut DriverConfig, name: &str)
    ensures
        final(c).settings() == (DriverSettings { instance: Some(name@), ..old(c).settings() }),
{
    c.config.instance_name(name)
}

/// Relies on `tiberius::Config::database`, which stores the database to open.
#[verifier::external_body]
fn set_database(c: &mut DriverConfig, name: &str)
    ensures
        final(c).settings() == (DriverSettings { database: Some(name@), ..old(c).settings() }),
{
    c.config.database(name)
}

/// Relies on `tiberius::AuthMethod::sql_server`, a login checked by the
/// server, and `tiberius::Config::authentication`, which stores it.
#[verifier::external_body]
fn set_sql_login(c: &mut DriverConfig, user: &str, password: &str)
    ensures
        final(c).settings() == (DriverSettings {
            login: Some((user@, password@)),
            ..old(c).settings()
        }),
{
    c.config.authentication(tiberius::AuthMethod::sql_server(user, password))
}

/// Relies on `tiberius::Config::encryption`, which stores the level; each
/// policy maps to the level of the same name.
#[verifier::external_body]
fn set_encryption(c: &mut DriverConfig, policy: EncryptionPolicy)
    ensures
        final(c).settings() == (DriverSettings { encryption: Some(policy), ..old(c).settings() }),
{
    c.config.encryption(
        match policy {
            EncryptionPolicy::Off => tiberius::EncryptionLevel::Off,
            EncryptionPolicy::Required => tiberius::EncryptionLevel::Required,
        },
    )
}

/// Relies on `tiberius::Config::trust_cert`, which accepts the server's
/// certificate unchecked. It panics only after `trust_cert_ca`, which this
/// library never calls.
#[verifier::external_body]
fn trust_server_cert(c: &mut DriverConfig)
    ensures
        final(c).settings() == (DriverSettings { trust_all: true, ..old(c).settings() }),
{
    c.config.trust_cert()
}

/// The driver settings that open the connection `plan` describes.
pub fn driver_config(plan: &ConnectPlan) -> (r: DriverConfig)
    ensures
        r.settings() == settings_for(*plan),
{
    let mut config = DriverConfig {
        config: new_driver_config(),
        settings: Ghost(default_settings()),
    };
    set_host(&mut config, plan.address.host.as_str());
    set_port(&mut config, plan.address.port);
    match &plan.address.instance {
        Some(name) => set_instance_name(&mut config, name.as_str()),
        None => {},
    }
    match &plan.database {
        Some(name) => set_database(&mut config, name.as_str()),
        None => {},
    }
    set_sql_login(&mut config, plan.username.as_str(), plan.password.as_str());
    set_encryption(&mut config, plan.encryption);
    if plan.trust_cert {
        trust_server_cert(&mut config);
    }
    config
}

} // verus!
