//! The renderer: title dates, file names, media URL rewriting, and the
//! full document a feed entry renders to.

use tootsync::feed::{Entry, MediaRef};
use tootsync::markdown::{formal_date, post_filename, title_date, truncate_media_url};

#[test]
fn test_convert_to_title_date() {
    assert_eq!(
        "Sat 04 Feb 2023 19:01",
        title_date("Sat, 04 Feb 2023 19:01:20 +0000").unwrap()
    );
}

#[test]
fn test_convert_to_filename() {
    assert_eq!(
        "2023-02-04-toot-1234.md",
        post_filename("Sat, 04 Feb 2023 19:01:20 +0000", "1234").unwrap()
    );
}

#[test]
fn formal_date_renders_iso8601_with_offset() {
    assert_eq!(
        "2023-02-04T19:01:20+00:00",
        formal_date("Sat, 04 Feb 2023 19:01:20 +0000").unwrap()
    );
    assert_eq!(
        "2023-02-04T19:01:20-05:30",
        formal_date("Sat, 04 Feb 2023 19:01:20 -0530").unwrap()
    );
}

#[test]
fn title_date_rejects_unparsable_timestamp() {
    assert!(title_date("not a date").is_err());
    assert!(post_filename("February the 4th", "1").is_err());
}

#[test]
fn test_convert_item_with_images_to_markdown() {
    let item = Entry {
        guid: "https://mastodon.green/@d6y/109808565659434052".to_string(),
        pub_date: "Sat, 04 Feb 2023 21:22:20 +0000".to_string(),
        link: "https://mastodon.green/@d6y/109808565659434052".to_string(),
        description: BODY.to_string(),
        medias: vec![
            MediaRef {
                url: URL1.to_string(),
                mime_type: "image/jpeg".to_string(),
                description: ALT1.to_string(),
            },
            MediaRef {
                url: URL2.to_string(),
                mime_type: "image/jpeg".to_string(),
                description: ALT2.to_string(),
            },
        ],
    };

    // the identity path mapping: each media keeps its source URL
    let paths = vec![URL1.to_string(), URL2.to_string()];

    let expected = EXPECTED;

    assert_eq!(expected, item.as_markdown(&paths, "mastodon.green").unwrap());
}

#[test]
fn render_is_idempotent() {
    let item = Entry {
        guid: "g".to_string(),
        pub_date: "Sat, 04 Feb 2023 21:22:20 +0000".to_string(),
        link: "https://example.net/@u/1".to_string(),
        description: "hello".to_string(),
        medias: vec![MediaRef {
            url: "https://files.example.net/a/b.png".to_string(),
            mime_type: "image/png".to_string(),
            description: "alt".to_string(),
        }],
    };
    let paths = vec!["/example.net/a/b.png".to_string()];
    let once = item.as_markdown(&paths, "example.net").unwrap();
    let twice = item.as_markdown(&paths, "example.net").unwrap();
    assert_eq!(once.as_bytes(), twice.as_bytes());
}

#[test]
fn image_media_renders_as_image_line() {
    let item = Entry {
        guid: "g".to_string(),
        pub_date: "Sat, 04 Feb 2023 21:22:20 +0000".to_string(),
        link: "https://example.net/@u/1".to_string(),
        description: "body".to_string(),
        medias: vec![MediaRef {
            url: "https://files.example.net/pic.jpeg".to_string(),
            mime_type: "image/jpeg".to_string(),
            description: "a red kite".to_string(),
        }],
    };
    let paths = vec!["/example.net/pic.jpeg".to_string()];
    let doc = item.as_markdown(&paths, "example.net").unwrap();
    assert!(doc.contains("![a red kite](/example.net/pic.jpeg)"));
}

#[test]
fn video_media_renders_as_video_tag() {
    let item = Entry {
        guid: "g".to_string(),
        pub_date: "Sat, 04 Feb 2023 21:22:20 +0000".to_string(),
        link: "https://example.net/@u/1".to_string(),
        description: "body".to_string(),
        medias: vec![MediaRef {
            url: "https://files.example.net/clip.mp4".to_string(),
            mime_type: "video/mp4".to_string(),
            description: "a short clip".to_string(),
        }],
    };
    let paths = vec!["/example.net/clip.mp4".to_string()];
    let doc = item.as_markdown(&paths, "example.net").unwrap();
    assert!(doc.contains("type='video/mp4'"));
    assert!(doc.contains("<p>a short clip</p>"));
    assert!(doc.contains("<source src='/example.net/clip.mp4'"));
}

#[test]
fn test_convert_media_url_to_path_by_truncation() {
    let input = "https://files.mastodon.green/media_attachments/files/109/766/538/533/129/824/original/3f22b7baa3a7d3d6.jpeg";
    let expected = "/mastodon.green/media_attachments/files/109/766/538/533/129/824/original/3f22b7baa3a7d3d6.jpeg";
    assert_eq!(expected.to_string(), truncate_media_url(input));
}

#[test]
fn truncation_replaces_every_occurrence() {
    assert_eq!("/a/b", truncate_media_url("https://files.a/b"));
    assert_eq!("/a//b", truncate_media_url("https://files.a/https://files.b"));
    assert_eq!("plain", truncate_media_url("plain"));
}

const BODY: &str = r#"<p>A visit to the ASMR exhibit at the Design Museum. Yes, of course there was a Bob Ross room (as part of the unintentional ASMR section of the exhibit).</p><p><a href="https://designmuseum.org/exhibitions/weird-sensation-feels-good-the-world-of-asmr" target="_blank" rel="nofollow noopener noreferrer"><span class="invisible">https://</span><span class="ellipsis">designmuseum.org/exhibitions/w</span><span class="invisible">eird-sensation-feels-good-the-world-of-asmr</span></a></p>"#;

const ALT1: &str = r#"An area partly enclosed by cream coloured soft walls, bending in like hands or waves. There are three large TV screens showing ASMR works. Groups of people, in twos and threes, sit on the soft cushioning wearing headsets, the cables stretching to the screens. No one is wearing shoes."#;

const URL1: &str = "https://files.mastodon.green/media_attachments/files/109/808/524/409/930/443/original/38da0da8e5badfdc.jpeg";

const ALT2: &str = r#"An entry in the programme, describing a video: “ASMR can be triggered by watching someone explain something.
In 1988, the Icelandic artist Björk was the lead singer of The Sugarcubes. In this film, which was part of a documentary made about the band, Bork describes how a television works. Her softly spoken description is accompanied by a close-up shot of her finger tracing the inside of a cathode-ray tube television set. 
The success of an ASM work is often determined by the relationship a viewer has to the ASMRtist through the screen. In this film, Björk's explanation is both generous and empathetic.”"#;

const URL2: &str = "https://files.mastodon.green/media_attachments/files/109/808/524/733/756/242/original/4f4f643fae86839f.jpeg";

const EXPECTED: &str = r#"--
title: Sat 04 Feb 2023 21:22
instance: mastodon.green
toot_url: https://mastodon.green/@d6y/109808565659434052
date: 2023-02-04T21:22:20+00:00
--

<p>A visit to the ASMR exhibit at the Design Museum. Yes, of course there was a Bob Ross room (as part of the unintentional ASMR section of the exhibit).</p><p><a href="https://designmuseum.org/exhibitions/weird-sensation-feels-good-the-world-of-asmr" target="_blank" rel="nofollow noopener noreferrer"><span class="invisible">https://</span><span class="ellipsis">designmuseum.org/exhibitions/w</span><span class="invisible">eird-sensation-feels-good-the-world-of-asmr</span></a></p>

![An area partly enclosed by cream coloured soft walls, bending in like hands or waves. There are three large TV screens showing ASMR works. Groups of people, in twos and threes, sit on the soft cushioning wearing headsets, the cables stretching to the screens. No one is wearing shoes.](https://files.mastodon.green/media_attachments/files/109/808/524/409/930/443/original/38da0da8e5badfdc.jpeg)

![An entry in the programme, describing a video: “ASMR can be triggered by watching someone explain something.
In 1988, the Icelandic artist Björk was the lead singer of The Sugarcubes. In this film, which was part of a documentary made about the band, Bork describes how a television works. Her softly spoken description is accompanied by a close-up shot of her finger tracing the inside of a cathode-ray tube television set. 
The success of an ASM work is often determined by the relationship a viewer has to the ASMRtist through the screen. In this film, Björk's explanation is both generous and empathetic.”](https://files.mastodon.green/media_attachments/files/109/808/524/733/756/242/original/4f4f643fae86839f.jpeg)
"#;
