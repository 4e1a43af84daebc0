use presence_reporter::config::{load_config, save_config, Config, ConfigError};

fn settings(url: &str, key: &str, watch: u64, media: bool, log: bool) -> Config {
    Config {
        api_url: url.to_string(),
        api_key: key.to_string(),
        watch_time: watch,
        media_enable: media,
        log_enable: log,
    }
}

fn assert_settings(cfg: &Config, url: &str, key: &str, watch: u64, media: bool, log: bool) {
    assert_eq!(cfg.api_url, url);
    assert_eq!(cfg.api_key, key);
    assert_eq!(cfg.watch_time, watch);
    assert_eq!(cfg.media_enable, media);
    assert_eq!(cfg.log_enable, log);
}

fn missing_field(text: &str) -> String {
    match load_config(text) {
        Err(ConfigError::MissingField(field)) => field,
        other => panic!("expected a missing field, got {:?}", other),
    }
}

#[test]
fn default_settings_are_as_documented() {
    let cfg = Config::default();
    assert_settings(&cfg, "", "", 5, true, true);
}

#[test]
fn clone_keeps_every_setting() {
    let cfg = settings("http://e", "k", 9, false, true);
    let copy = cfg.clone();
    assert_settings(&copy, "http://e", "k", 9, false, true);
}

#[test]
fn load_reads_the_two_required_settings_and_keeps_the_defaults() {
    let cfg = load_config("API_URL=http://example.test/report\nAPI_KEY=secret\n").unwrap();
    assert_settings(&cfg, "http://example.test/report", "secret", 5, true, true);
}

#[test]
fn load_reads_all_five_settings() {
    let text = "API_URL=http://h\nAPI_KEY=k\nWATCH_TIME=12\nMEDIA_ENABLE=false\nLOG_ENABLE=false\n";
    let cfg = load_config(text).unwrap();
    assert_settings(&cfg, "http://h", "k", 12, false, false);
}

#[test]
fn load_skips_blank_lines_comments_and_unknown_keys() {
    let text = "\n# a comment\n   \n  # API_URL=ignored\nAPI_URL=u\nCOLOUR=blue\nno equals sign here\nAPI_KEY=k";
    let cfg = load_config(text).unwrap();
    assert_settings(&cfg, "u", "k", 5, true, true);
}

#[test]
fn load_trims_lines_and_values_but_not_keys() {
    let cfg = load_config("   API_URL=   http://h/a b   \n\tAPI_KEY=\tk\t\n").unwrap();
    assert_settings(&cfg, "http://h/a b", "k", 5, true, true);
    assert_eq!(missing_field("API_URL =u\nAPI_KEY=k\n"), "API_URL");
    assert_eq!(missing_field("API_URL=u\nAPI_KEY =k\n"), "API_KEY");
}

#[test]
fn load_splits_at_the_first_equals_sign() {
    let cfg = load_config("API_URL=http://h/?a=b&c=d\nAPI_KEY==k=\n").unwrap();
    assert_settings(&cfg, "http://h/?a=b&c=d", "=k=", 5, true, true);
}

#[test]
fn load_takes_the_last_of_repeated_settings() {
    let cfg = load_config("API_URL=first\nAPI_KEY=k\nAPI_URL=second\nWATCH_TIME=7\nWATCH_TIME=8\n").unwrap();
    assert_settings(&cfg, "second", "k", 8, true, true);
}

#[test]
fn load_accepts_carriage_returns_and_unicode_white_space() {
    let cfg = load_config("API_URL=u\r\nAPI_KEY=k\r\nWATCH_TIME=9\r\n").unwrap();
    assert_settings(&cfg, "u", "k", 9, true, true);
    let cfg = load_config("\u{3000}API_URL=\u{a0}u\u{2003}\nAPI_KEY=k\u{85}\n").unwrap();
    assert_settings(&cfg, "u", "k", 5, true, true);
}

#[test]
fn load_falls_back_on_numbers_it_cannot_read() {
    let cases = [
        "", "abc", "-1", "1.5", "1 2", "+", "-", "++1", "0x10", "1_000", "18446744073709551616",
        "99999999999999999999999", "١٢", "12a",
    ];
    for value in cases {
        let text = format!("API_URL=u\nAPI_KEY=k\nWATCH_TIME={}\n", value);
        let cfg = load_config(&text).unwrap();
        assert_eq!(cfg.watch_time, 5, "value {:?}", value);
        assert!(value.parse::<u64>().is_err());
    }
}

#[test]
fn load_reads_numbers_as_the_standard_library_does() {
    let cases = [
        "0", "1", "9", "10", "42", "007", "+7", "+0", "18446744073709551615",
        "+18446744073709551615", "018446744073709551615", "1844674407370955161",
        "18446744073709551609", "18446744073709551610",
    ];
    for value in cases {
        let text = format!("API_URL=u\nAPI_KEY=k\nWATCH_TIME={}\n", value);
        let cfg = load_config(&text).unwrap();
        assert_eq!(cfg.watch_time, value.parse::<u64>().unwrap(), "value {:?}", value);
    }
}

#[test]
fn load_reads_truth_values_spelled_exactly() {
    let cfg = load_config("API_URL=u\nAPI_KEY=k\nMEDIA_ENABLE=false\nLOG_ENABLE=true\n").unwrap();
    assert_settings(&cfg, "u", "k", 5, false, true);
    for value in ["False", "FALSE", "0", "no", "", "falsee", "fals", "tru"] {
        let text = format!("API_URL=u\nAPI_KEY=k\nMEDIA_ENABLE={}\nLOG_ENABLE={}\n", value, value);
        let cfg = load_config(&text).unwrap();
        assert_settings(&cfg, "u", "k", 5, true, true);
    }
    let cfg = load_config("API_URL=u\nAPI_KEY=k\nLOG_ENABLE=false\nLOG_ENABLE=maybe\n").unwrap();
    assert_settings(&cfg, "u", "k", 5, true, false);
}

#[test]
fn load_fails_on_a_missing_endpoint_with_its_name() {
    assert_eq!(missing_field(""), "API_URL");
    assert_eq!(missing_field("API_KEY=k\n"), "API_URL");
    assert_eq!(missing_field("API_URL=\nAPI_KEY=k\n"), "API_URL");
    assert_eq!(missing_field("API_URL=   \nAPI_KEY=k\n"), "API_URL");
    assert_eq!(missing_field("API_URL=u\nAPI_URL=\nAPI_KEY=k\n"), "API_URL");
    let error = load_config("API_KEY=k\n").unwrap_err();
    assert!(!matches!(error, ConfigError::Parse(_)));
    assert_eq!(error.message(), "Missing required field: API_URL");
}

#[test]
fn load_fails_on_a_missing_key_with_its_name() {
    assert_eq!(missing_field("API_URL=u\n"), "API_KEY");
    assert_eq!(missing_field("API_URL=u\nAPI_KEY=\n"), "API_KEY");
    let error = load_config("API_URL=u\n").unwrap_err();
    assert_eq!(error.message(), "Missing required field: API_KEY");
}

#[test]
fn error_messages_name_what_went_wrong() {
    assert_eq!(
        ConfigError::NotFound("/etc/reporter.env".to_string()).message(),
        "Config file not found at /etc/reporter.env"
    );
    assert_eq!(
        ConfigError::MissingField("API_URL".to_string()).message(),
        "Missing required field: API_URL"
    );
    assert_eq!(
        ConfigError::Parse("bad line".to_string()).message(),
        "Failed to parse config: bad line"
    );
}

#[test]
fn save_writes_one_line_for_each_setting() {
    let text = save_config(&settings("http://h", "k", 5, true, false));
    assert_eq!(
        text,
        "API_URL=http://h\nAPI_KEY=k\nWATCH_TIME=5\nMEDIA_ENABLE=true\nLOG_ENABLE=false\n"
    );
}

#[test]
fn save_trims_the_endpoint_and_the_key() {
    let text = save_config(&settings("  http://h \n", "\tk ", 0, false, true));
    assert_eq!(
        text,
        "API_URL=http://h\nAPI_KEY=k\nWATCH_TIME=0\nMEDIA_ENABLE=false\nLOG_ENABLE=true\n"
    );
}

#[test]
fn save_writes_numbers_in_decimal() {
    for watch in [0u64, 1, 9, 10, 11, 99, 100, 101, 12345, 1_000_000_007, u64::MAX - 1, u64::MAX] {
        let text = save_config(&settings("u", "k", watch, true, true));
        let expected = format!(
            "API_URL=u\nAPI_KEY=k\nWATCH_TIME={}\nMEDIA_ENABLE=true\nLOG_ENABLE=true\n",
            watch
        );
        assert_eq!(text, expected);
    }
}

#[test]
fn saved_settings_load_back() {
    let cases = [
        settings("http://example.test/api?x=1", "key=with=equals", 5, true, true),
        settings("u", "k", 0, false, false),
        settings("https://h/#fragment", "# not a comment", u64::MAX, true, false),
        settings("a b\tc", "k\u{a0}k", 3, false, true),
        settings("a\rb", "k", 20, true, true),
    ];
    for cfg in cases.iter() {
        let loaded = load_config(&save_config(cfg)).unwrap();
        assert_settings(
            &loaded,
            &cfg.api_url,
            &cfg.api_key,
            cfg.watch_time,
            cfg.media_enable,
            cfg.log_enable,
        );
    }
}

#[test]
fn saved_settings_load_back_trimmed() {
    let cfg = settings("  http://h  ", "\u{2003}k\n", 8, true, false);
    let loaded = load_config(&save_config(&cfg)).unwrap();
    assert_settings(&loaded, "http://h", "k", 8, true, false);
}

#[test]
fn saved_settings_without_an_endpoint_do_not_load() {
    let cfg = settings("   ", "k", 8, true, false);
    assert_eq!(missing_field(&save_config(&cfg)), "API_URL");
}

#[test]
fn a_line_feed_inside_the_endpoint_breaks_the_line() {
    let cfg = settings("http://h\nAPI_KEY=other", "k", 8, true, false);
    let loaded = load_config(&save_config(&cfg)).unwrap();
    assert_eq!(loaded.api_url, "http://h");
    assert_eq!(loaded.api_key, "k");
    let cfg = settings("http://h\nWATCH_TIME=77", "k", 8, true, false);
    let text = save_config(&cfg);
    assert_eq!(
        text,
        "API_URL=http://h\nWATCH_TIME=77\nAPI_KEY=k\nWATCH_TIME=8\nMEDIA_ENABLE=true\nLOG_ENABLE=false\n"
    );
}
