use news_ticker::codec::{encode_feed_entry, parse_feed_entry};
use news_ticker::config::{is_feed_valid, Config, DialogValues, FeedUrl};
use news_ticker::errors::CoreError;

#[test]
fn new_config_has_the_defaults() {
    let config = Config::new();
    assert!(config.feeds_urls.is_empty());
    assert_eq!(config.ticker_speed, 1);
    assert_eq!(config.width, 1920);
    assert!(!config.preserve_items);
    assert_eq!(config.save_location, None);
}

#[test]
fn feed_validation_wants_five_characters() {
    assert!(!is_feed_valid(""));
    assert!(!is_feed_valid("http"));
    assert!(is_feed_valid("https"));
    assert!(is_feed_valid("https://example.org/feed"));
}

#[test]
fn accepted_dialog_applies_its_values() {
    let mut config = Config::new();
    config.save_location = Some(String::from("/tmp/settings.rc"));
    let dialog = DialogValues {
        feeds_urls: vec![
            FeedUrl {
                url: String::from("https://example.org/feed"),
                polling_interval: 15,
            },
            FeedUrl {
                url: String::from("https://example.org/other"),
                polling_interval: 0,
            },
        ],
        ticker_speed: 0,
        width: 1280,
        preserve_items: true,
    };
    assert!(config.set_from_dialog(&dialog).is_ok());
    assert_eq!(config.feeds_urls.len(), 2);
    assert_eq!(config.feeds_urls[0].polling_interval, 15);
    // An unspecified cadence falls back to the default.
    assert_eq!(config.feeds_urls[1].polling_interval, 30);
    // The ticker never stands still: zero speed becomes one pixel.
    assert_eq!(config.ticker_speed, 1);
    assert_eq!(config.width, 1280);
    assert!(config.preserve_items);
    // The save location belongs to the host, not the dialog.
    assert_eq!(config.save_location.as_deref(), Some("/tmp/settings.rc"));
}

#[test]
fn rejected_dialog_changes_nothing() {
    let mut config = Config::new();
    let dialog = DialogValues {
        feeds_urls: vec![FeedUrl {
            url: String::from("bad"),
            polling_interval: 15,
        }],
        ticker_speed: 4,
        width: 800,
        preserve_items: true,
    };
    let result = config.set_from_dialog(&dialog);
    assert_eq!(result, Err(CoreError::InvalidFeedUrl));
    assert!(config.feeds_urls.is_empty());
    assert_eq!(config.ticker_speed, 1);
    assert_eq!(config.width, 1920);
    assert!(!config.preserve_items);
}

#[test]
fn entry_with_cadence_parses() {
    let f = parse_feed_entry("https://example.org/feed,15");
    assert_eq!(f.url, "https://example.org/feed");
    assert_eq!(f.polling_interval, 15);
}

#[test]
fn entry_without_comma_defaults() {
    let f = parse_feed_entry("https://example.org/feed");
    assert_eq!(f.url, "https://example.org/feed");
    assert_eq!(f.polling_interval, 30);
}

#[test]
fn entry_with_bad_digits_defaults() {
    assert_eq!(parse_feed_entry("https://e.org/f,").polling_interval, 30);
    assert_eq!(parse_feed_entry("https://e.org/f,abc").polling_interval, 30);
    assert_eq!(parse_feed_entry("https://e.org/f,1x").polling_interval, 30);
    assert_eq!(parse_feed_entry("https://e.org/f,0").polling_interval, 30);
    assert_eq!(
        parse_feed_entry("https://e.org/f,99999999999999999999").polling_interval,
        30
    );
}

#[test]
fn entry_keeps_only_first_comma_for_url() {
    let f = parse_feed_entry("https://e.org/f,12,7");
    assert_eq!(f.url, "https://e.org/f");
    // ",12,7" after the URL is no clean number: the default applies.
    assert_eq!(f.polling_interval, 30);
}

#[test]
fn encoding_writes_url_comma_cadence() {
    let f = FeedUrl {
        url: String::from("https://example.org/feed"),
        polling_interval: 240,
    };
    assert_eq!(encode_feed_entry(&f), "https://example.org/feed,240");
}

#[test]
fn encoded_entry_parses_back() {
    let f = FeedUrl {
        url: String::from("https://example.org/feed"),
        polling_interval: 1440,
    };
    let back = parse_feed_entry(&encode_feed_entry(&f));
    assert_eq!(back.url, f.url);
    assert_eq!(back.polling_interval, f.polling_interval);
}
