use hc3_backend::config::{get_hc3_config, presence_summary, resolve, Config, ConfigError};
use hc3_backend::env_store::EnvStore;

fn store(pairs: &[(&str, &str)]) -> EnvStore {
    let mut env = EnvStore::new();
    for (k, v) in pairs {
        env.insert_if_absent(k.to_string(), v.to_string());
    }
    env
}

#[test]
fn all_unset_is_incomplete() {
    let env = EnvStore::new();
    assert_eq!(resolve(&env), Err(ConfigError::ConfigurationIncomplete));
    assert_eq!(
        get_hc3_config(&env),
        Err("HC3 credentials not configured. Please set up .env file.".to_string())
    );
}

#[test]
fn protocol_defaults_to_http() {
    let env = store(&[("HC3_HOST", "h"), ("HC3_USER", "u"), ("HC3_PASSWORD", "p")]);
    let c = get_hc3_config(&env).unwrap();
    assert_eq!(c.protocol, "http");
    assert_eq!(c.host, "h");
    assert_eq!(c.user, "u");
    assert_eq!(c.password, "p");
}

#[test]
fn all_four_set_returned_exactly() {
    let env = store(&[
        ("HC3_HOST", "10.0.0.5"),
        ("HC3_USER", "admin"),
        ("HC3_PASSWORD", "x"),
        ("HC3_PROTOCOL", "https"),
    ]);
    assert_eq!(
        get_hc3_config(&env),
        Ok(Config {
            host: "10.0.0.5".to_string(),
            user: "admin".to_string(),
            password: "x".to_string(),
            protocol: "https".to_string(),
        })
    );
}

#[test]
fn empty_password_is_incomplete() {
    let env = store(&[("HC3_HOST", "h"), ("HC3_USER", "u"), ("HC3_PASSWORD", "")]);
    assert_eq!(resolve(&env), Err(ConfigError::ConfigurationIncomplete));
}

#[test]
fn missing_user_is_incomplete() {
    let env = store(&[("HC3_HOST", "h"), ("HC3_PASSWORD", "p"), ("HC3_PROTOCOL", "https")]);
    assert!(get_hc3_config(&env).is_err());
}

#[test]
fn empty_protocol_is_kept() {
    let env = store(&[
        ("HC3_HOST", "h"),
        ("HC3_USER", "u"),
        ("HC3_PASSWORD", "p"),
        ("HC3_PROTOCOL", ""),
    ]);
    assert_eq!(resolve(&env).unwrap().protocol, "");
}

#[test]
fn incomplete_message_text() {
    assert_eq!(
        ConfigError::ConfigurationIncomplete.message(),
        "HC3 credentials not configured. Please set up .env file."
    );
}

#[test]
fn presence_lines() {
    let env = store(&[("HC3_HOST", "secret-host"), ("HC3_PROTOCOL", "https")]);
    assert_eq!(
        presence_summary(&env),
        vec![
            "HC3_HOST: set".to_string(),
            "HC3_USER: NOT SET".to_string(),
            "HC3_PASSWORD: NOT SET".to_string(),
            "HC3_PROTOCOL: set".to_string(),
        ]
    );
}

#[test]
fn store_first_writer_wins() {
    let mut env = EnvStore::new();
    assert!(env.insert_if_absent("K".to_string(), "1".to_string()));
    assert!(!env.insert_if_absent("K".to_string(), "2".to_string()));
    assert!(env.insert_if_absent("L".to_string(), "3".to_string()));
    assert_eq!(env.get("K"), Some("1".to_string()));
    assert_eq!(env.get("M"), None);
    assert!(env.contains("L"));
    assert_eq!(
        env.pairs(),
        vec![("K".to_string(), "1".to_string()), ("L".to_string(), "3".to_string())]
    );
}
