//! The stored source list: checked add and remove operations.

use hour_calc::config::ics_add;
use hour_calc::config::ics_remove;
use hour_calc::config::Config;
use hour_calc::config::ConfigError;
use hour_calc::config::ICalConfig;

fn source(name: &str, url: &str) -> ICalConfig {
    ICalConfig {
        name: name.to_string(),
        url: url.to_string(),
    }
}

#[test]
fn add_appends_new_source() {
    let mut config = Config { ical: Vec::new() };
    assert!(ics_add(&mut config, "work".to_string(), "https://example.test/a.ics".to_string()).is_ok());
    assert_eq!(config.ical.len(), 1);
    assert_eq!(config.ical[0].name, "work");
    assert_eq!(config.ical[0].url, "https://example.test/a.ics");
}

#[test]
fn add_refuses_duplicate_name() {
    let mut config = Config {
        ical: vec![source("work", "https://example.test/a.ics")],
    };
    let r = ics_add(&mut config, "work".to_string(), "https://example.test/b.ics".to_string());
    assert_eq!(r, Err(ConfigError::AlreadyExists));
    assert_eq!(config.ical.len(), 1);
    assert_eq!(config.ical[0].url, "https://example.test/a.ics");
}

#[test]
fn remove_drops_indexed_source() {
    let mut config = Config {
        ical: vec![
            source("work", "https://example.test/a.ics"),
            source("side", "https://example.test/b.ics"),
        ],
    };
    assert!(ics_remove(&mut config, 0).is_ok());
    assert_eq!(config.ical.len(), 1);
    assert_eq!(config.ical[0].name, "side");
}

#[test]
fn remove_refuses_out_of_range_index() {
    let mut config = Config {
        ical: vec![source("work", "https://example.test/a.ics")],
    };
    assert_eq!(ics_remove(&mut config, 1), Err(ConfigError::InvalidIndex));
    assert_eq!(config.ical.len(), 1);
}

#[test]
fn default_config_is_empty() {
    let config = Config::default();
    assert!(config.ical.is_empty());
}
