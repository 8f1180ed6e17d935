use proc_config::config::{Configuration, EnvConfig};
use proc_config::error::Error;

fn env(pairs: &[(&str, &str)]) -> Vec<(String, String)> {
    pairs.iter().map(|(k, v)| (k.to_string(), v.to_string())).collect()
}

#[test]
fn scenario_file_and_env_merge() {
    let source = "name = \"svc\"\n";
    let overrides = env(&[("ADDRESS", "10.0.0.1")]);
    let cfg = Configuration::load(source, &overrides).unwrap();
    assert_eq!(cfg.name, "svc");
    assert_eq!(cfg.address, "10.0.0.1");
    assert_eq!(cfg.port, None);
}

#[test]
fn scenario_all_missing() {
    let overrides = env(&[]);
    let r = Configuration::load("", &overrides);
    match r {
        Err(Error::MissingFields(names)) => {
            assert_eq!(names, vec!["name".to_string(), "address".to_string()]);
        }
        other => panic!("expected MissingFields, got {:?}", other),
    }
}

#[test]
fn scenario_env_overrides_port() {
    let source = "name = \"svc\"\naddress = \"x\"\nport = 8080\n";
    let overrides = env(&[("PORT", "9090")]);
    let cfg = Configuration::load(source, &overrides).unwrap();
    assert_eq!(cfg.name, "svc");
    assert_eq!(cfg.address, "x");
    assert_eq!(cfg.port, Some(9090));
}

#[test]
fn env_overrides_file_string() {
    let source = "name = \"from-file\"\naddress = \"a\"\n";
    let overrides = env(&[("NAME", "from-env")]);
    let cfg = Configuration::load(source, &overrides).unwrap();
    assert_eq!(cfg.name, "from-env");
    assert_eq!(cfg.address, "a");
}

#[test]
fn malformed_source_is_parsing_error() {
    let overrides = env(&[]);
    let r = Configuration::load("name = ", &overrides);
    assert!(matches!(r, Err(Error::ParsingError)));
}

#[test]
fn wrong_kind_in_file_is_parsing_error() {
    // `port` is declared as an integer; a string for it makes the whole
    // record undecodable, even though other fields are also missing.
    let overrides = env(&[]);
    let r = Configuration::load("port = \"eighty\"\n", &overrides);
    assert!(matches!(r, Err(Error::ParsingError)));
}

#[test]
fn float_in_file_is_parsing_error() {
    let overrides = env(&[]);
    let r = Configuration::load("name = \"svc\"\naddress = \"x\"\nport = 1.5\n", &overrides);
    assert!(matches!(r, Err(Error::ParsingError)));
}

#[test]
fn unconvertible_override_is_type_error() {
    let source = "name = \"svc\"\naddress = \"x\"\n";
    let overrides = env(&[("PORT", "not-a-number")]);
    let r = Configuration::load(source, &overrides);
    match r {
        Err(Error::TypeError(field)) => assert_eq!(field, "port"),
        other => panic!("expected TypeError, got {:?}", other),
    }
}

#[test]
fn missing_fields_win_over_type_error() {
    let overrides = env(&[("PORT", "not-a-number")]);
    let r = Configuration::load("", &overrides);
    match r {
        Err(Error::MissingFields(names)) => {
            assert_eq!(names, vec!["name".to_string(), "address".to_string()]);
        }
        other => panic!("expected MissingFields, got {:?}", other),
    }
}

#[test]
fn repeated_load_is_equal() {
    let source = "name = \"svc\"\naddress = \"x\"\nport = 1\n";
    let overrides = env(&[("PORT", "2")]);
    let first = Configuration::load(source, &overrides);
    let second = Configuration::load(source, &overrides);
    assert_eq!(first.unwrap(), second.unwrap());
}

#[test]
fn unknown_file_keys_are_ignored() {
    let source = "name = \"svc\"\naddress = \"x\"\nextra = 3\n";
    let overrides = env(&[]);
    let cfg = Configuration::load(source, &overrides).unwrap();
    assert_eq!(cfg.name, "svc");
    assert_eq!(cfg.port, None);
}

#[test]
fn env_alone_suffices() {
    let overrides = env(&[("NAME", "n"), ("ADDRESS", "a"), ("PORT", "-1")]);
    let cfg = Configuration::load("", &overrides).unwrap();
    assert_eq!(cfg.name, "n");
    assert_eq!(cfg.address, "a");
    assert_eq!(cfg.port, Some(-1));
}
