use patrol::hash;
use patrol::models::{Config, ConfigError, ConfigRecord, Data, DataRecord, Mode};
use patrol::selector::SelectorParseError;
use patrol::timestamp::Timestamp;
use patrol::url::UrlParseError;

fn record(url: &str, selector: &str, mode: Option<&str>, wait: Option<u16>) -> ConfigRecord {
    ConfigRecord {
        url: url.to_owned(),
        selector: selector.to_owned(),
        mode: mode.map(|m| m.to_owned()),
        wait_seconds: wait,
    }
}

#[test]
fn mode_defaults_to_full() {
    assert_eq!(Mode::default(), Mode::Full);
}

#[test]
fn mode_names_are_lower_case() {
    assert_eq!(Mode::Simple.name(), "simple");
    assert_eq!(Mode::Full.name(), "full");
}

#[test]
fn mode_reads_its_names_and_takes_others_for_full() {
    assert_eq!(Mode::from_name("simple"), Mode::Simple);
    assert_eq!(Mode::from_name("full"), Mode::Full);
    assert_eq!(Mode::from_name("Simple"), Mode::Full);
    assert_eq!(Mode::from_name("simple "), Mode::Full);
    assert_eq!(Mode::from_name(""), Mode::Full);
    assert_eq!(Mode::from_name("fast"), Mode::Full);
}

#[test]
fn mode_name_reads_back() {
    for mode in [Mode::Simple, Mode::Full] {
        assert_eq!(Mode::from_name(mode.name()), mode);
    }
}

#[test]
fn config_record_with_all_fields_is_taken_as_it_is() {
    let config =
        Config::from_record(record("https://example.com/a", "div.x > p", Some("simple"), Some(5)))
            .unwrap();
    assert_eq!(config.url.as_str(), "https://example.com/a");
    assert_eq!(config.selector.as_str(), "div.x > p");
    assert_eq!(config.mode, Mode::Simple);
    assert_eq!(config.wait_seconds, Some(5));
}

#[test]
fn config_record_without_mode_is_full() {
    let config = Config::from_record(record("https://example.com", "p", None, None)).unwrap();
    assert_eq!(config.mode, Mode::Full);
    assert_eq!(config.wait_seconds, None);
}

#[test]
fn config_record_with_unknown_mode_is_full() {
    let config =
        Config::from_record(record("https://example.com", "p", Some("turbo"), None)).unwrap();
    assert_eq!(config.mode, Mode::Full);
}

#[test]
fn config_record_with_bad_url_is_refused() {
    let r = Config::from_record(record("nowhere", "p", None, None));
    assert_eq!(r.err(), Some(ConfigError::UrlParseError(UrlParseError)));
}

#[test]
fn config_record_with_bad_selector_is_refused() {
    let r = Config::from_record(record("https://example.com", "p >", None, None));
    assert_eq!(r.err(), Some(ConfigError::SelectorParseError(SelectorParseError)));
}

#[test]
fn config_record_with_both_bad_reports_the_url() {
    let r = Config::from_record(record("nowhere", "p >", None, None));
    assert_eq!(r.err(), Some(ConfigError::UrlParseError(UrlParseError)));
}

#[test]
fn config_record_reads_back() {
    for (mode, wait) in [(Some("simple"), Some(0u16)), (Some("full"), Some(65535)), (None, None)] {
        let config =
            Config::from_record(record("https://example.com/x?y", "ul li", mode, wait)).unwrap();
        let written = config.to_record();
        assert_eq!(written.url, "https://example.com/x?y");
        assert_eq!(written.selector, "ul li");
        assert_eq!(written.mode.as_deref(), Some(config.mode.name()));
        assert_eq!(written.wait_seconds, wait);
        let again = Config::from_record(written).unwrap();
        assert_eq!(again.url, config.url);
        assert_eq!(again.selector, config.selector);
        assert_eq!(again.mode, config.mode);
        assert_eq!(again.wait_seconds, config.wait_seconds);
    }
}

#[test]
fn config_clone_is_equal() {
    let config = Config::from_record(record("https://example.com", "p", None, Some(3))).unwrap();
    let copy = config.clone();
    assert_eq!(copy.url, config.url);
    assert_eq!(copy.selector, config.selector);
    assert_eq!(copy.mode, config.mode);
    assert_eq!(copy.wait_seconds, config.wait_seconds);
}

#[test]
fn data_record_reads_back() {
    let full = Data {
        hash: Some(hash::Hash::new(b"hello")),
        last_updated: Some(Timestamp::from_unix_secs(10)),
        last_checked: Timestamp::from_unix_secs(20),
    };
    let bare = Data { hash: None, last_updated: None, last_checked: Timestamp::from_unix_secs(5) };
    for data in [full, bare] {
        assert_eq!(Data::from_record(&data.to_record()), Ok(data));
    }
}

#[test]
fn data_record_holds_the_hash_as_lowercase_hex() {
    let data = Data {
        hash: Some(hash::Hash::new(b"abc")),
        last_updated: None,
        last_checked: Timestamp::from_unix_secs(1),
    };
    let written = data.to_record();
    assert_eq!(
        written.hash.as_deref(),
        Some("ba7816bf8f01cfea414140de5dae2223b00361a396177a9cb410ff61f20015ad")
    );
    assert_eq!(written.last_updated, None);
    assert_eq!(written.last_checked, Timestamp::from_unix_secs(1));
}

#[test]
fn data_record_with_bad_hash_is_refused() {
    let written = DataRecord {
        hash: Some("xyz".to_owned()),
        last_updated: None,
        last_checked: Timestamp::from_unix_secs(1),
    };
    assert_eq!(Data::from_record(&written), Err(hash::FromHashStrError {}));
}

#[test]
fn data_record_accepts_an_upper_case_hash() {
    let written = DataRecord {
        hash: Some("AB".repeat(32)),
        last_updated: Some(Timestamp::from_unix_secs(3)),
        last_checked: Timestamp::from_unix_secs(4),
    };
    let data = Data::from_record(&written).unwrap();
    assert_eq!(data.hash, Some(hash::Hash::from([0xab; 32])));
    assert_eq!(data.last_updated, Some(Timestamp::from_unix_secs(3)));
    assert_eq!(data.last_checked, Timestamp::from_unix_secs(4));
}
