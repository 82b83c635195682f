use news_ticker::client::{parse_feed, synthetic_error_item};
use news_ticker::errors::FetchError;

fn rss_document(items: &str) -> Vec<u8> {
    format!(
        "<?xml version=\"1.0\"?><rss version=\"2.0\"><channel>\
         <title>News</title><link>https://example.org</link>\
         <description>test feed</description>{}</channel></rss>",
        items
    )
    .into_bytes()
}

#[test]
fn parse_reads_guid_title_link_description() {
    let body = rss_document(
        "<item><guid>id-1</guid><title>Breaking</title>\
         <link>https://example.org/1</link>\
         <description>More inside.</description></item>",
    );
    let items = parse_feed("https://example.org/feed", &body).unwrap();
    assert_eq!(items.len(), 1);
    assert_eq!(items[0].id, "id-1");
    assert_eq!(items[0].title, "Breaking");
    assert_eq!(items[0].link, "https://example.org/1");
    assert_eq!(items[0].description.as_deref(), Some("More inside."));
    assert_eq!(items[0].published, None);
}

#[test]
fn parse_keeps_document_order() {
    let body = rss_document(
        "<item><guid>one</guid><title>1</title></item>\
         <item><guid>two</guid><title>2</title></item>\
         <item><guid>three</guid><title>3</title></item>",
    );
    let items = parse_feed("https://example.org/feed", &body).unwrap();
    let ids: Vec<&str> = items.iter().map(|i| i.id.as_str()).collect();
    assert_eq!(ids, vec!["one", "two", "three"]);
}

#[test]
fn parse_falls_back_to_link_for_id() {
    let body = rss_document(
        "<item><title>No guid</title><link>https://example.org/x</link></item>",
    );
    let items = parse_feed("https://example.org/feed", &body).unwrap();
    assert_eq!(items[0].id, "https://example.org/x");
}

#[test]
fn parse_falls_back_to_title_for_id() {
    let body = rss_document("<item><title>Only a title</title></item>");
    let items = parse_feed("https://example.org/feed", &body).unwrap();
    assert_eq!(items[0].id, "Only a title");
    assert_eq!(items[0].link, "");
}

#[test]
fn malformed_document_is_a_parse_error() {
    let body = b"this is not xml at all".to_vec();
    let result = parse_feed("https://example.org/feed", &body);
    match result {
        Err(FetchError::Parse(message)) => {
            assert_eq!(
                message,
                "Failed to read feed content for https://example.org/feed"
            );
        }
        _ => panic!("malformed bytes must be rejected as a parse failure"),
    }
}

#[test]
fn truncated_document_is_a_parse_error() {
    let mut body = rss_document("<item><guid>id-1</guid></item>");
    body.truncate(body.len() / 2);
    assert!(parse_feed("https://example.org/feed", &body).is_err());
}

#[test]
fn synthetic_item_carries_the_diagnostic() {
    let error = FetchError::Network(String::from("Failed to connect site."));
    let placeholder = synthetic_error_item(&error);
    assert_eq!(placeholder.title, "Failed to connect site.");
    assert_eq!(placeholder.id, "Failed to connect site.");
    assert_eq!(placeholder.link, "");
    assert_eq!(placeholder.description, None);
}
