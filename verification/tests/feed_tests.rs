//! The feed model: parsing a syndication document, validation of raw
//! entries, and diffing identifiers against a watermark.

use tootsync::feed::{Entry, Feed, MediaRef};

const GUID_1: &str = "https://mastodon.green/@d6y/109808565659434052";
const GUID_2: &str = "https://mastodon.green/@d6y/109818375938647316";
const GUID_3: &str = "https://mastodon.green/@d6y/109818388501614164";
const GUID_4: &str = "https://mastodon.green/@d6y/109848274586190243";

fn item_xml(guid: &str) -> String {
    format!(
        "<item><guid isPermaLink=\"true\">{guid}</guid><link>{guid}</link>\
         <pubDate>Sat, 04 Feb 2023 19:01:20 +0000</pubDate>\
         <description>a post</description></item>"
    )
}

fn example_feed_xml() -> String {
    format!(
        "<?xml version=\"1.0\" encoding=\"UTF-8\"?>\
         <rss version=\"2.0\" xmlns:media=\"http://search.yahoo.com/mrss/\">\
         <channel><title>t</title><link>l</link><description>d</description>\
         {}{}{}{}</channel></rss>",
        item_xml(GUID_4),
        item_xml(GUID_3),
        item_xml(GUID_2),
        item_xml(GUID_1),
    )
}

fn example_feed() -> Feed {
    Feed::parse(&example_feed_xml()).unwrap()
}

#[test]
fn test_find_next_from_older() {
    let channel = example_feed();

    // We know there are two GUIDs after this one in the example feed
    let from = GUID_2;

    let expected = GUID_3;

    assert_eq!(Some(expected.to_string()), channel.find_next_guid(from));
}

#[test]
fn test_find_next_from_latest() {
    let channel = example_feed();
    // This is the latest GUID: there is no next GUID
    let from = GUID_4;

    assert_eq!(None, channel.find_next_guid(from));
}

#[test]
fn next_guids_are_sorted_ascending_without_duplicates() {
    // entries arrive unsorted and with a duplicated identifier
    let feed = Feed {
        entries: vec![
            plain_entry("c"),
            plain_entry("a"),
            plain_entry("d"),
            plain_entry("a"),
            plain_entry("b"),
        ],
    };
    let next = feed.find_next_guids("a");
    assert_eq!(vec!["b".to_string(), "c".to_string(), "d".to_string()], next);
    // a watermark that matches nothing in the feed still works
    let next = feed.find_next_guids("bb");
    assert_eq!(vec!["c".to_string(), "d".to_string()], next);
}

#[test]
fn unparsable_document_is_a_malformed_feed() {
    assert!(Feed::parse("this is not xml").is_err());
    assert!(tootsync::feed::parse_items("this is not xml").is_err());
}

#[test]
fn entry_missing_required_attributes_is_excluded() {
    let xml = "<?xml version=\"1.0\" encoding=\"UTF-8\"?>\
        <rss version=\"2.0\"><channel><title>t</title><link>l</link><description>d</description>\
        <item><guid>g1</guid><link>l1</link><description>one</description></item>\
        <item><guid>g2</guid><link>l2</link>\
        <pubDate>Sat, 04 Feb 2023 19:01:20 +0000</pubDate>\
        <description>two</description></item>\
        </channel></rss>";
    let feed = Feed::from_raw(tootsync::feed::parse_items(xml).unwrap());
    // the first item lacks a publish date and is silently excluded
    assert_eq!(1, feed.entries.len());
    assert_eq!("g2", feed.entries[0].guid);
}

#[test]
fn media_references_are_parsed_in_order() {
    let xml = "<?xml version=\"1.0\" encoding=\"UTF-8\"?>\
        <rss version=\"2.0\" xmlns:media=\"http://search.yahoo.com/mrss/\">\
        <channel><title>t</title><link>l</link><description>d</description>\
        <item><guid>g1</guid><link>l1</link>\
        <pubDate>Sat, 04 Feb 2023 19:01:20 +0000</pubDate>\
        <description>one</description>\
        <media:content url=\"https://files.example.net/a.png\" type=\"image/png\">\
        <media:description type=\"plain\">first picture</media:description>\
        </media:content>\
        <media:content url=\"https://files.example.net/b.mp4\" type=\"video/mp4\">\
        </media:content>\
        </item></channel></rss>";
    let feed = Feed::from_raw(tootsync::feed::parse_items(xml).unwrap());
    assert_eq!(1, feed.entries.len());
    let medias = &feed.entries[0].medias;
    assert_eq!(2, medias.len());
    assert_eq!("https://files.example.net/a.png", medias[0].url);
    assert_eq!("image/png", medias[0].mime_type);
    assert_eq!("first picture", medias[0].description);
    assert_eq!("https://files.example.net/b.mp4", medias[1].url);
    assert_eq!("video/mp4", medias[1].mime_type);
    // a media reference without a description renders with empty text
    assert_eq!("", medias[1].description);
}

#[test]
fn find_by_guid_returns_the_matching_entry() {
    let feed = Feed { entries: vec![plain_entry("a"), plain_entry("b")] };
    assert_eq!("b", feed.find_by_guid("b").unwrap().guid);
    assert!(feed.find_by_guid("missing").is_none());
}

fn plain_entry(guid: &str) -> Entry {
    Entry {
        guid: guid.to_string(),
        pub_date: "Sat, 04 Feb 2023 19:01:20 +0000".to_string(),
        link: format!("https://example.net/@u/{guid}"),
        description: "a post".to_string(),
        medias: Vec::<MediaRef>::new(),
    }
}
