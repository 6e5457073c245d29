use simple_sql_profiler::address::{ConfigError, Transport};
use simple_sql_profiler::config::{
    encryption_policy, plan_connection, ConnectionConfig, EncryptionPolicy, EstablishError, PlanError,
    SavedConnection,
};
use simple_sql_profiler::driver::driver_config;
use simple_sql_profiler::text::same_text;

fn config(server: &str, auth: &str, database: &str, encrypt: &str) -> ConnectionConfig {
    ConnectionConfig {
        server_name: server.to_string(),
        authentication: auth.to_string(),
        username: "u".to_string(),
        password: "p".to_string(),
        database: database.to_string(),
        encrypt: encrypt.to_string(),
        trust_cert: false,
    }
}

#[test]
fn optional_encryption_is_off() {
    assert_eq!(encryption_policy("optional"), EncryptionPolicy::Off);
}

#[test]
fn strict_encryption_is_required() {
    assert_eq!(encryption_policy("strict"), EncryptionPolicy::Required);
}

#[test]
fn unknown_encryption_mode_is_required() {
    assert_eq!(encryption_policy("OPTIONAL"), EncryptionPolicy::Required);
    assert_eq!(encryption_policy(""), EncryptionPolicy::Required);
    assert_eq!(encryption_policy("optional "), EncryptionPolicy::Required);
}

#[test]
fn windows_authentication_is_refused() {
    match plan_connection(&config("db01", "windows", "", "strict")) {
        Err(PlanError::UnsupportedAuth(m)) => assert_eq!(m, "windows"),
        _ => panic!("expected an unsupported scheme"),
    }
}

#[test]
fn any_scheme_but_sql_is_refused() {
    assert!(matches!(
        plan_connection(&config("db01", "", "", "strict")),
        Err(PlanError::UnsupportedAuth(_))
    ));
    assert!(matches!(
        plan_connection(&config("db01", "SQL", "", "strict")),
        Err(PlanError::UnsupportedAuth(_))
    ));
}

#[test]
fn bad_port_is_reported_before_scheme() {
    match plan_connection(&config("db01,x", "windows", "", "strict")) {
        Err(PlanError::Config(ConfigError::InvalidPort(t))) => assert_eq!(t, "x"),
        _ => panic!("expected an invalid port"),
    }
}

#[test]
fn plan_carries_resolved_settings() {
    let mut c = config("db01,2000", "sql", "sales", "optional");
    c.trust_cert = true;
    let p = plan_connection(&c).expect("plan");
    assert_eq!(p.address.host, "db01");
    assert_eq!(p.address.port, 2000);
    assert_eq!(p.address.instance, None);
    assert_eq!(p.database, Some("sales".to_string()));
    assert_eq!(p.username, "u");
    assert_eq!(p.password, "p");
    assert_eq!(p.encryption, EncryptionPolicy::Off);
    assert!(p.trust_cert);
}

#[test]
fn empty_database_means_server_default() {
    let p = plan_connection(&config("db01", "sql", "", "strict")).expect("plan");
    assert_eq!(p.database, None);
}

#[test]
fn driver_config_addresses_the_resolved_host() {
    let p = plan_connection(&config("db01,2000", "sql", "", "strict")).expect("plan");
    assert_eq!(driver_config(&p).config().get_addr(), "db01:2000");
    let q = plan_connection(&config("db01\\SQLEXPRESS", "sql", "", "strict")).expect("plan");
    assert_eq!(driver_config(&q).config().get_addr(), "db01:1434");
}

#[test]
fn saved_connection_keeps_all_but_password() {
    let mut c = config("db01", "sql", "sales", "strict");
    c.trust_cert = true;
    let s = SavedConnection::from_config(&c, true);
    assert_eq!(s.server_name, "db01");
    assert_eq!(s.authentication, "sql");
    assert_eq!(s.username, "u");
    assert_eq!(s.database, "sales");
    assert_eq!(s.encrypt, "strict");
    assert!(s.trust_cert);
    assert!(s.remember_password);
}

#[test]
fn same_text_compares_characters() {
    assert!(same_text("sql", "sql"));
    assert!(!same_text("sql", "sq"));
    assert!(!same_text("sql", "sqL"));
    assert!(same_text("", ""));
}

#[test]
fn plan_error_messages_name_the_cause() {
    let e = plan_connection(&config("db01,x", "sql", "", "strict")).unwrap_err();
    assert_eq!(e.message(), "Invalid port: x");
    let f = plan_connection(&config("db01", "windows", "", "strict")).unwrap_err();
    assert_eq!(f.message(), "Authentication scheme is not supported: windows");
}

#[test]
fn establish_error_messages_name_the_stage() {
    let d = EstablishError::Discovery { server: "db01\\X".to_string(), cause: "timeout".to_string() };
    assert_eq!(d.message(), "Named instance resolution failed for 'db01\\X': timeout");
    let t = EstablishError::Dial { target: "db01:1433".to_string(), cause: "refused".to_string() };
    assert_eq!(t.message(), "TCP connection to 'db01:1433' failed: refused");
    let s = EstablishError::SocketOption { cause: "bad fd".to_string() };
    assert_eq!(s.message(), "Failed to set TCP_NODELAY: bad fd");
    let h = EstablishError::Handshake { cause: "login failed".to_string() };
    assert_eq!(h.message(), "SQL Server connection failed: login failed");
}

#[test]
fn named_instance_goes_through_discovery() {
    let p = plan_connection(&config("db01\\SQLEXPRESS,5000", "sql", "", "strict")).expect("plan");
    assert_eq!(p.address.transport(), Transport::Discovery);
    let q = plan_connection(&config("db01,5000", "sql", "", "strict")).expect("plan");
    assert_eq!(q.address.transport(), Transport::Direct);
}
