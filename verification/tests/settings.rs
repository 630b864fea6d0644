//! What the environment and the command line set.

use simple_im::clock::secs;
use simple_im::config::{clamp_env_secs, clamp_setting, Config, Settings};
use simple_im::delivery::DeliveryHub;
use simple_im::http::{admin_secret_of, attachment_config, bootstrap_deadline};

fn args(list: &[&str]) -> Vec<String> {
    let mut all = vec!["simple-im".to_string()];
    all.extend(list.iter().map(|s| s.to_string()));
    all
}

fn config(list: &[&str]) -> Config {
    Config::from_env_and_args(&args(list), None, None, None).unwrap()
}

#[test]
fn settings_stay_in_their_range() {
    assert_eq!(clamp_setting(None, 5, 600, 120), 120);
    assert_eq!(clamp_setting(Some("junk"), 5, 600, 120), 120);
    assert_eq!(clamp_setting(Some(""), 5, 600, 120), 120);
    assert_eq!(clamp_setting(Some("4"), 5, 600, 120), 5);
    assert_eq!(clamp_setting(Some("5"), 5, 600, 120), 5);
    assert_eq!(clamp_setting(Some("601"), 5, 600, 120), 600);
    assert_eq!(clamp_env_secs(Some("60"), 5, 600, 120), secs(60));
}

#[test]
fn spans_where_nothing_is_set() {
    let s = Settings::default();
    assert_eq!(s.reply_ttl, secs(120));
    assert_eq!(s.hold_ttl, secs(60));
    assert_eq!(s.gc_unlisten, secs(300));
    assert_eq!(s.gc_no_grant, secs(1800));
    assert_eq!(s.settle_window, secs(30));
}

#[test]
fn spans_are_taken_from_the_texts() {
    let s = Settings::from_values(Some("1"), Some("9999"), Some("61"), Some("x"), Some("0"));
    assert_eq!(s.reply_ttl, secs(5));
    assert_eq!(s.hold_ttl, secs(300));
    assert_eq!(s.gc_unlisten, secs(61));
    assert_eq!(s.gc_no_grant, secs(1800));
    assert_eq!(s.settle_window, secs(1));
    let hub = DeliveryHub::new(secs(30), s);
    assert_eq!(hub.reply_ttl, secs(5));
    assert_eq!(hub.gc_unlisten, secs(61));
}

#[test]
fn start_without_arguments() {
    let c = config(&[]);
    assert_eq!(c.port, 8443);
    assert!(!c.insecure_http);
    assert_eq!(c.liveness_window_secs, 30);
    assert_eq!(c.token_store_path, "sim-tokens.db");
}

#[test]
fn insecure_flag_moves_the_default_port() {
    let c = config(&["--insecure-http"]);
    assert_eq!(c.port, 8080);
    assert!(c.insecure_http);
    let c = config(&["--insecure-http", "--port", "9000"]);
    assert_eq!(c.port, 9000);
    let c = Config::from_env_and_args(&args(&[]), Some("1"), None, None).unwrap();
    assert_eq!(c.port, 8443);
    assert!(c.insecure_http);
    let c = Config::from_env_and_args(&args(&[]), Some("yes"), None, None).unwrap();
    assert!(!c.insecure_http);
}

/// A port that is given is the port, also where it is a default.
#[test]
fn given_port_is_kept() {
    let c = config(&["--insecure-http", "--port", "8443"]);
    assert_eq!(c.port, 8443);
    assert!(c.insecure_http);
    assert_eq!(c.liveness_window_secs, 30);
    assert_eq!(config(&["--port", "8443", "--insecure-http"]).port, 8443);
    assert_eq!(config(&["--port", "8080"]).port, 8080);
}

#[test]
fn port_that_is_none() {
    assert_eq!(config(&["--port", "65536"]).port, 8443);
    assert_eq!(config(&["--port", "web"]).port, 8443);
    assert_eq!(config(&["--port"]).port, 8443);
    assert_eq!(config(&["--port", "81", "--port", "82"]).port, 82);
    assert_eq!(config(&["--insecure-http", "--port", "web"]).port, 8080);
}

#[test]
fn liveness_window_from_both_places() {
    assert_eq!(config(&["--liveness-window-secs", "1"]).liveness_window_secs, 5);
    assert_eq!(config(&["--liveness-window-secs", "x"]).liveness_window_secs, 30);
    let a = args(&["--liveness-window-secs", "60"]);
    let c = Config::from_env_and_args(&a, None, Some("9999"), None).unwrap();
    assert_eq!(c.liveness_window_secs, 600);
    let c = Config::from_env_and_args(&a, None, Some("often"), None).unwrap();
    assert_eq!(c.liveness_window_secs, 60);
}

#[test]
fn store_path_from_both_places() {
    let c = config(&["--token-store-path", "a.db"]);
    assert_eq!(c.token_store_path, "a.db");
    let a = args(&["--token-store-path", "a.db"]);
    let c = Config::from_env_and_args(&a, None, None, Some("b.db")).unwrap();
    assert_eq!(c.token_store_path, "a.db");
    let c = Config::from_env_and_args(&args(&[]), None, None, Some("b.db")).unwrap();
    assert_eq!(c.token_store_path, "b.db");
    let c = Config::from_env_and_args(&args(&[]), None, None, Some("")).unwrap();
    assert_eq!(c.token_store_path, "sim-tokens.db");
}

#[test]
fn help_stops_the_start() {
    assert!(Config::from_env_and_args(&args(&["--port", "1", "-h"]), None, None, None).is_none());
    assert!(Config::from_env_and_args(&args(&["--help"]), None, None, None).is_none());
    assert!(Config::from_env_and_args(&args(&["--port", "-h"]), None, None, None).is_some());
}

#[test]
fn files_are_limited() {
    assert_eq!(attachment_config(None, None), (secs(86_400), 10_485_760));
    assert_eq!(attachment_config(Some("1"), Some("1")), (secs(60), 1024));
    assert_eq!(
        attachment_config(Some("99999999"), Some("999999999")),
        (secs(2_592_000), 209_715_200)
    );
}

#[test]
fn bootstrap_window() {
    assert_eq!(bootstrap_deadline(None, 5), None);
    assert_eq!(bootstrap_deadline(Some("0"), 5), None);
    assert_eq!(bootstrap_deadline(Some("no"), 5), None);
    assert_eq!(bootstrap_deadline(Some("10"), 5), Some(secs(10) + 5));
}

#[test]
fn operators_secret() {
    assert_eq!(admin_secret_of(None), None);
    assert_eq!(admin_secret_of(Some("")), None);
    assert_eq!(admin_secret_of(Some("s")).as_deref(), Some("s"));
}
