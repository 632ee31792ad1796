use qbcli::util::cli::ProfileArgs;
use qbcli::config::{
    config_from_read, ConfigFileRead,
    default_profile_subcommand, get_oauth_creds, get_oauth_production_creds,
    get_oauth_sandbox_creds, read_env_var, ConfigData, CredentialsError, DefaultProfileReport,
    EnvSnapshot, CONFIG_DATA_PATH,
};
use qbcli::util::AuthEnvironment;
use qbcli::text::{lookup_pair, str_eq_ignore_ascii_case, u16_to_decimal};

fn vars(pairs: &[(&str, &str)]) -> Vec<(String, String)> {
    pairs.iter().map(|(k, v)| (k.to_string(), v.to_string())).collect()
}

fn env(pairs: &[(&str, &str)]) -> EnvSnapshot {
    EnvSnapshot { vars: vars(pairs), not_unicode: Vec::new() }
}

#[test]
fn arg_string_names() {
    assert_eq!(AuthEnvironment::Sandbox.arg_string(), "sandbox");
    assert_eq!(AuthEnvironment::Production.arg_string(), "production");
}

#[test]
fn from_str_round_trip() {
    for e in [AuthEnvironment::Sandbox, AuthEnvironment::Production] {
        assert_eq!(AuthEnvironment::from_str(&e.arg_string(), true), Ok(e));
        assert_eq!(AuthEnvironment::from_str(&e.arg_string(), false), Ok(e));
    }
}

#[test]
fn from_str_ignores_ascii_case_only_when_asked() {
    assert_eq!(AuthEnvironment::from_str("SandBox", true), Ok(AuthEnvironment::Sandbox));
    assert_eq!(AuthEnvironment::from_str("PRODUCTION", true), Ok(AuthEnvironment::Production));
    assert_eq!(
        AuthEnvironment::from_str("SandBox", false),
        Err("invalid variant: SandBox".to_string())
    );
}

#[test]
fn from_str_unknown_name() {
    assert_eq!(
        AuthEnvironment::from_str("staging", true),
        Err("invalid variant: staging".to_string())
    );
    assert_eq!(AuthEnvironment::from_str("", true), Err("invalid variant: ".to_string()));
    assert_eq!(
        AuthEnvironment::from_str("sandboxx", true),
        Err("invalid variant: sandboxx".to_string())
    );
}

#[test]
fn environment_urls() {
    assert_eq!(
        AuthEnvironment::Sandbox.rest_base_url(),
        "https://sandbox-quickbooks.api.intuit.com/"
    );
    assert_eq!(AuthEnvironment::Production.rest_base_url(), "https://quickbooks.api.intuit.com/");
    assert_eq!(
        AuthEnvironment::Sandbox.discovery_url(),
        "https://developer.api.intuit.com/.well-known/openid_sandbox_configuration"
    );
    assert_eq!(
        AuthEnvironment::Production.discovery_url(),
        "https://developer.api.intuit.com/.well-known/openid_configuration"
    );
}

#[test]
fn config_default_profile_set_then_get() {
    let mut c = ConfigData::new();
    assert_eq!(c.default_profile(), None);
    c.set_default_profile("work");
    assert_eq!(c.default_profile(), Some("work"));
    c.set_default_profile("home");
    assert_eq!(c.default_profile(), Some("home"));
    assert_eq!(ConfigData::default().default_profile(), None);
    assert_eq!(CONFIG_DATA_PATH, "config.toml");
}

#[test]
fn default_profile_subcommand_sets() {
    let mut c = ConfigData::new();
    let r = default_profile_subcommand(&mut c, Some("work"));
    assert_eq!(c.default_profile(), Some("work"));
    assert_eq!(r.message(), "The current default profile is now (work).");
}

#[test]
fn default_profile_subcommand_shows() {
    let mut c = ConfigData::new();
    let r = default_profile_subcommand(&mut c, None);
    assert!(matches!(r, DefaultProfileReport::NotSet));
    assert_eq!(r.message(), "No default profile is set.");
    c.set_default_profile("work");
    let r = default_profile_subcommand(&mut c, None);
    assert_eq!(r.message(), "The current default profile is (work).");
    assert_eq!(c.default_profile(), Some("work"));
}

#[test]
fn profile_precedence() {
    let mut c = ConfigData::new();
    let none = ProfileArgs { profile: None };
    assert_eq!(none.profile(&c), "default");
    c.set_default_profile("work");
    assert_eq!(none.profile(&c), "work");
    let given = ProfileArgs { profile: Some("other".to_string()) };
    assert_eq!(given.profile(&c), "other");
}

#[test]
fn sandbox_creds() {
    let v = env(&[
        ("SANDBOX_CLIENT_ID", "sid"),
        ("CLIENT_ID", "pid"),
        ("SANDBOX_CLIENT_SECRET", "ssecret"),
        ("CLIENT_SECRET", "psecret"),
    ]);
    let c = get_oauth_sandbox_creds(&v).unwrap();
    assert_eq!((c.client_id.as_str(), c.client_secret.as_str()), ("sid", "ssecret"));
    let c = get_oauth_production_creds(&v).unwrap();
    assert_eq!((c.client_id.as_str(), c.client_secret.as_str()), ("pid", "psecret"));
    let c = get_oauth_creds(&AuthEnvironment::Sandbox, &v).unwrap();
    assert_eq!(c.client_id, "sid");
    let c = get_oauth_creds(&AuthEnvironment::Production, &v).unwrap();
    assert_eq!(c.client_secret, "psecret");
}

#[test]
fn missing_creds() {
    let v = env(&[("SANDBOX_CLIENT_SECRET", "s")]);
    match get_oauth_creds(&AuthEnvironment::Sandbox, &v) {
        Err(CredentialsError::MissingVar(n)) => assert_eq!(n, "SANDBOX_CLIENT_ID"),
        _ => panic!("expected a missing variable"),
    }
    let v = env(&[("CLIENT_ID", "p")]);
    match get_oauth_creds(&AuthEnvironment::Production, &v) {
        Err(e @ CredentialsError::MissingVar(_)) => {
            assert!(matches!(&e, CredentialsError::MissingVar(n) if n == "CLIENT_SECRET"));
            assert_eq!(e.message(), "environment variable not found");
        }
        _ => panic!("expected a missing variable"),
    }
}

#[test]
fn lookup_last_entry_wins() {
    let v = vars(&[("A", "1"), ("B", "2"), ("A", "3")]);
    assert_eq!(lookup_pair(&v, "A"), Some("3".to_string()));
    assert_eq!(lookup_pair(&v, "B"), Some("2".to_string()));
    assert_eq!(lookup_pair(&v, "C"), None);
}

#[test]
fn decimal_ports() {
    assert_eq!(u16_to_decimal(0), "0");
    assert_eq!(u16_to_decimal(7), "7");
    assert_eq!(u16_to_decimal(9999), "9999");
    assert_eq!(u16_to_decimal(10), "10");
    assert_eq!(u16_to_decimal(65535), "65535");
}

#[test]
fn ascii_case_compare() {
    assert!(str_eq_ignore_ascii_case("QbCli", "qbcli"));
    assert!(!str_eq_ignore_ascii_case("qbcli", "qbclj"));
    assert!(!str_eq_ignore_ascii_case("qbcli", "qbcl"));
    assert!(!str_eq_ignore_ascii_case("é", "É"));
}

#[test]
fn settings_file_outcomes() {
    assert_eq!(config_from_read(ConfigFileRead::Missing).unwrap().default_profile(), None);
    assert_eq!(config_from_read(ConfigFileRead::Unreadable).unwrap().default_profile(), None);
    let mut c = ConfigData::new();
    c.set_default_profile("work");
    assert_eq!(config_from_read(ConfigFileRead::Parsed(c)).unwrap().default_profile(), Some("work"));
    assert_eq!(
        config_from_read(ConfigFileRead::Invalid("bad".to_string())).unwrap_err(),
        "bad"
    );
}

#[test]
fn not_unicode_creds() {
    let v = EnvSnapshot {
        vars: vars(&[("CLIENT_SECRET", "s")]),
        not_unicode: vars(&[("CLIENT_ID", "\"f\\xFFo\"")]),
    };
    let e = get_oauth_creds(&AuthEnvironment::Production, &v).unwrap_err();
    assert!(matches!(&e, CredentialsError::NotUnicode(n, _) if n == "CLIENT_ID"));
    assert_eq!(e.message(), "environment variable was not valid unicode: \"f\\xFFo\"");
    assert!(matches!(read_env_var(&v, "CLIENT_SECRET"), Ok(s) if s == "s"));
    assert!(matches!(read_env_var(&v, "NOPE"), Err(CredentialsError::MissingVar(n)) if n == "NOPE"));
}

#[test]
fn first_environment_entry_counts() {
    let v = EnvSnapshot {
        vars: vars(&[("CLIENT_ID", "first"), ("CLIENT_ID", "second"), ("CLIENT_SECRET", "s")]),
        not_unicode: Vec::new(),
    };
    assert_eq!(get_oauth_production_creds(&v).unwrap().client_id, "first");
    assert!(matches!(read_env_var(&v, "CLIENT_ID"), Ok(s) if s == "first"));
}
