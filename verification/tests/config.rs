use ics_agenda::config::Config;
use ics_agenda::config::FeedSource;

fn vars(pairs: &[(&str, &str)]) -> Vec<(String, String)> {
    pairs.iter().map(|(k, v)| (k.to_string(), v.to_string())).collect()
}

fn full() -> Vec<(String, String)> {
    vars(&[
        ("SERVER_ADDRESS", "127.0.0.1:8080"),
        ("ICS_URLS", "https://a.example/cal.ics, https://b.example/cal.ics"),
        ("REFRESH_PERIOD_SECONDS", "300"),
        ("MAX_EVENTS_DISPLAY", "10"),
        ("TIMEZONE", "Europe/Paris"),
    ])
}

fn without(name: &str) -> Vec<(String, String)> {
    full().into_iter().filter(|(k, _)| k != name).collect()
}

fn with(name: &str, value: &str) -> Vec<(String, String)> {
    let mut all = full();
    all.push((name.to_string(), value.to_string()));
    all
}

fn expected() -> Config {
    Config {
        server_address: "127.0.0.1:8080".to_string(),
        ics_urls: vec!["https://a.example/cal.ics".to_string(), "https://b.example/cal.ics".to_string()],
        refresh_period: 300,
        max_events: 10,
        timezone: "Europe/Paris".to_string(),
    }
}

#[test]
fn full_settings_give_the_configuration() {
    assert_eq!(Config::parse(&full()), Ok(expected()));
}

#[test]
fn each_missing_setting_is_named() {
    assert_eq!(Config::parse(&without("SERVER_ADDRESS")), Err("Missing SERVER_ADDRESS".to_string()));
    assert_eq!(Config::parse(&without("ICS_URLS")), Err("Missing ICS_URLS".to_string()));
    assert_eq!(
        Config::parse(&without("REFRESH_PERIOD_SECONDS")),
        Err("Missing REFRESH_PERIOD_SECONDS".to_string())
    );
    assert_eq!(Config::parse(&without("MAX_EVENTS_DISPLAY")), Err("Missing MAX_EVENTS_DISPLAY".to_string()));
    assert_eq!(Config::parse(&without("TIMEZONE")), Err("Missing TIMEZONE".to_string()));
}

#[test]
fn the_first_fault_in_order_is_reported() {
    assert_eq!(Config::parse(&vars(&[])), Err("Missing SERVER_ADDRESS".to_string()));
    assert_eq!(
        Config::parse(&vars(&[("SERVER_ADDRESS", "x"), ("TIMEZONE", "UTC")])),
        Err("Missing ICS_URLS".to_string())
    );
    assert_eq!(
        Config::parse(&vars(&[
            ("SERVER_ADDRESS", "x"),
            ("ICS_URLS", "u"),
            ("REFRESH_PERIOD_SECONDS", "soon"),
            ("MAX_EVENTS_DISPLAY", "many"),
        ])),
        Err("Invalid REFRESH_PERIOD_SECONDS".to_string())
    );
    assert_eq!(
        Config::parse(&vars(&[
            ("SERVER_ADDRESS", "x"),
            ("ICS_URLS", "u"),
            ("REFRESH_PERIOD_SECONDS", "5"),
            ("MAX_EVENTS_DISPLAY", "many"),
        ])),
        Err("Invalid MAX_EVENTS_DISPLAY".to_string())
    );
}

#[test]
fn numbers_that_cannot_be_read_are_invalid() {
    for bad in ["", "-1", "1.5", " 5", "5s", "18446744073709551616"] {
        assert_eq!(
            Config::parse(&with("REFRESH_PERIOD_SECONDS", bad)),
            Err("Invalid REFRESH_PERIOD_SECONDS".to_string()),
            "{:?}",
            bad
        );
        assert_eq!(
            Config::parse(&with("MAX_EVENTS_DISPLAY", bad)),
            Err("Invalid MAX_EVENTS_DISPLAY".to_string()),
            "{:?}",
            bad
        );
    }
}

#[test]
fn numbers_may_carry_a_plus_and_zeros() {
    let mut want = expected();
    want.refresh_period = 18446744073709551615;
    assert_eq!(Config::parse(&with("REFRESH_PERIOD_SECONDS", "+18446744073709551615")), Ok(want));
    let mut want = expected();
    want.max_events = 7;
    assert_eq!(Config::parse(&with("MAX_EVENTS_DISPLAY", "007")), Ok(want));
}

#[test]
fn of_two_settings_the_later_counts() {
    let mut want = expected();
    want.timezone = "UTC".to_string();
    assert_eq!(Config::parse(&with("TIMEZONE", "UTC")), Ok(want));
}

#[test]
fn feed_addresses_are_cut_at_commas_and_trimmed() {
    let mut want = expected();
    want.ics_urls = vec!["a".to_string(), "".to_string(), "b c".to_string(), "".to_string()];
    assert_eq!(Config::parse(&with("ICS_URLS", " a ,, b c ,")), Ok(want));
    let mut want = expected();
    want.ics_urls = vec!["".to_string()];
    assert_eq!(Config::parse(&with("ICS_URLS", "")), Ok(want));
}

#[test]
fn lines_of_a_settings_file_are_read() {
    let lines: Vec<String> = [
        "# settings",
        "",
        "   ",
        "SERVER_ADDRESS = 127.0.0.1:8080",
        "ICS_URLS=https://a.example/cal.ics?x=1, https://b.example/cal.ics",
        "  REFRESH_PERIOD_SECONDS=300  ",
        "MAX_EVENTS_DISPLAY =10",
        "TIMEZONE= Europe/Paris",
        "no equals sign here",
        "TIMEZONE=Asia/Tokyo",
    ]
    .iter()
    .map(|s| s.to_string())
    .collect();
    let mut want = expected();
    want.ics_urls = vec!["https://a.example/cal.ics?x=1".to_string(), "https://b.example/cal.ics".to_string()];
    want.timezone = "Asia/Tokyo".to_string();
    assert_eq!(Config::from_lines(&lines), Ok(want));
}

#[test]
fn lines_without_settings_miss_the_first_one() {
    assert_eq!(Config::from_lines(&vec![]), Err("Missing SERVER_ADDRESS".to_string()));
    assert_eq!(
        Config::from_lines(&vec!["=no name".to_string(), "SERVER_ADDRESS".to_string()]),
        Err("Missing SERVER_ADDRESS".to_string())
    );
}

#[test]
fn describe_lists_the_settings() {
    assert_eq!(
        expected().describe(),
        "\n * Server address: 127.0.0.1:8080 \n * ICS Urls: https://a.example/cal.ics,https://b.example/cal.ics \n * Refresh period: 300 \n * Max events 10 \n * Timezone: Europe/Paris"
    );
    let mut none = expected();
    none.ics_urls = vec![];
    none.refresh_period = 0;
    assert_eq!(
        none.describe(),
        "\n * Server address: 127.0.0.1:8080 \n * ICS Urls:  \n * Refresh period: 0 \n * Max events 10 \n * Timezone: Europe/Paris"
    );
}

#[test]
fn clone_copies_every_setting() {
    assert_eq!(expected().clone(), expected());
}

#[test]
fn each_address_is_a_feed_in_the_zone_of_the_configuration() {
    assert_eq!(
        expected().feed_sources(),
        vec![
            FeedSource { url: "https://a.example/cal.ics".to_string(), timezone: "Europe/Paris".to_string() },
            FeedSource { url: "https://b.example/cal.ics".to_string(), timezone: "Europe/Paris".to_string() },
        ]
    );
    let mut none = expected();
    none.ics_urls = vec![];
    assert_eq!(none.feed_sources(), vec![]);
}
