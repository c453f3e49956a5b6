use std::time::Duration;
use tauri_plugins::posthog::config::Config;

#[test]
fn a_project_key_starts_on_the_us_cloud() {
    let config = Config::new("phc_test");
    assert_eq!(config.api_key, "phc_test");
    assert_eq!(config.host, "https://us.i.posthog.com");
    assert_eq!(config.flush_at, 20);
    assert_eq!(config.flush_every, Duration::from_secs(30));
    assert_eq!(config.limits.max_events, 1_000);
    assert_eq!(config.limits.max_bytes, 1_048_576);
}

#[test]
fn the_last_host_that_was_chosen_counts() {
    assert_eq!(Config::new("phc_test").eu().host, "https://eu.i.posthog.com");
    assert_eq!(Config::new("phc_test").eu().us().host, "https://us.i.posthog.com");
    let own = Config::new("phc_test").host("https://posthog.example.com");
    assert_eq!(own.host, "https://posthog.example.com");
    assert_eq!(own.api_key, "phc_test");
}
