//! The orchestrator: backlog resolution against a watermark, strict
//! publication order, fail-fast media mirroring, and what a failed run
//! leaves behind in the store.

use tootsync::feed::{Entry, Feed, MediaRef};
use tootsync::store::StoreModel;
use tootsync::sync::{RunPhase, SyncRun};

fn entry(guid: &str, medias: Vec<MediaRef>) -> Entry {
    Entry {
        guid: guid.to_string(),
        pub_date: "Sat, 04 Feb 2023 19:01:20 +0000".to_string(),
        link: format!("https://example.net/@u/{guid}"),
        description: format!("post {guid}"),
        medias,
    }
}

fn new_run(max_posts: usize) -> SyncRun {
    SyncRun::new(
        "example.net",
        "static",
        "content/microposts",
        "static/id.txt",
        max_posts,
    )
}

#[test]
fn backlog_is_the_first_entries_after_the_watermark() {
    // identifiers g1 < g2 < g3, watermark g1, at most one per run
    let feed = Feed {
        entries: vec![
            entry("g3", vec![]),
            entry("g1", vec![]),
            entry("g2", vec![]),
        ],
    };
    let mut run = new_run(1);
    assert_eq!(RunPhase::Idle, run.phase());
    run.begin_fetch();
    run.begin(feed, "g1");
    run.compute_backlog();
    assert_eq!(RunPhase::Mirroring, run.phase());
    assert_eq!(1, run.backlog_len());
    assert_eq!("g2", run.current_guid().as_str());
}

#[test]
fn watermark_at_the_feed_maximum_ends_in_done_with_no_commits() {
    let feed = Feed {
        entries: vec![
            entry("g1", vec![]),
            entry("g2", vec![]),
            entry("g3", vec![]),
        ],
    };
    let mut run = new_run(5);
    run.begin_fetch();
    run.begin(feed, "g3");
    run.compute_backlog();
    assert_eq!(RunPhase::Done, run.phase());
    assert_eq!(0, run.backlog_len());
    assert_eq!(0, run.published_count());
}

#[test]
fn entries_publish_in_ascending_order_and_advance_the_watermark() {
    let feed = Feed { entries: vec![entry("b", vec![]), entry("a", vec![])] };
    let mut store = StoreModel::new();
    let mut run = new_run(10);
    run.begin_fetch();
    run.begin(feed, "");
    run.compute_backlog();
    assert_eq!(2, run.backlog_len());
    assert_eq!("a", run.current_guid().as_str());

    let doc_a = "content/microposts/2023-02-04-toot-a.md";
    let doc_b = "content/microposts/2023-02-04-toot-b.md";

    // entry a has no media: straight to its batch
    assert!(run.next_media_url().is_none());
    let (msg_a, batch_a) = run.prepare_publish().unwrap();
    assert_eq!("add 2023-02-04-toot-a.md", msg_a);
    let head = store.head();
    store.commit(head, &batch_a).unwrap();
    run.published();

    // a's commit is visible before anything of b exists
    assert!(store.read_file(doc_a).is_some());
    assert!(store.read_file(doc_b).is_none());
    assert_eq!(b"a".to_vec(), *store.read_file("static/id.txt").unwrap());
    assert_eq!("a", run.watermark().as_str());
    assert_eq!(RunPhase::Mirroring, run.phase());
    assert_eq!("b", run.current_guid().as_str());

    let (msg_b, batch_b) = run.prepare_publish().unwrap();
    assert_eq!("add 2023-02-04-toot-b.md", msg_b);
    let head = store.head();
    store.commit(head, &batch_b).unwrap();
    run.published();

    assert_eq!(RunPhase::Done, run.phase());
    assert_eq!(2, run.published_count());
    assert_eq!("b", run.watermark().as_str());
    assert!(store.read_file(doc_b).is_some());
    assert_eq!(b"b".to_vec(), *store.read_file("static/id.txt").unwrap());
}

#[test]
fn batch_holds_media_document_and_watermark_together() {
    let medias = vec![MediaRef {
        url: "https://files.example.net/pic.png".to_string(),
        mime_type: "image/png".to_string(),
        description: "alt".to_string(),
    }];
    let feed = Feed { entries: vec![entry("g1", medias)] };
    let mut run = new_run(1);
    run.begin_fetch();
    run.begin(feed, "");
    run.compute_backlog();

    let url = run.next_media_url().unwrap().clone();
    assert_eq!("https://files.example.net/pic.png", url);
    run.media_fetched(vec![7u8, 8, 9]);
    assert!(run.next_media_url().is_none());

    let (_, batch) = run.prepare_publish().unwrap();
    assert_eq!(3, batch.len());
    assert_eq!("static/example.net/pic.png", batch[0].git_path().as_str());
    assert_eq!(vec![7u8, 8, 9], batch[0].content_bytes());
    assert_eq!("content/microposts/2023-02-04-toot-g1.md", batch[1].git_path().as_str());
    let doc = String::from_utf8(batch[1].content_bytes()).unwrap();
    assert!(doc.contains("![alt](/example.net/pic.png)"));
    assert!(doc.contains("instance: example.net"));
    assert!(doc.contains("toot_url: https://example.net/@u/g1"));
    assert_eq!("static/id.txt", batch[2].git_path().as_str());
    assert_eq!(b"g1".to_vec(), batch[2].content_bytes());
}

#[test]
fn full_run_from_document_to_store() {
    let xml = "<?xml version=\"1.0\" encoding=\"UTF-8\"?>\
        <rss version=\"2.0\" xmlns:media=\"http://search.yahoo.com/mrss/\">\
        <channel><title>t</title><link>l</link><description>d</description>\
        <item><guid>g1</guid><link>https://example.net/@u/g1</link>\
        <pubDate>Sat, 04 Feb 2023 19:01:20 +0000</pubDate>\
        <description>post body</description>\
        <media:content url=\"https://files.example.net/pic.png\" type=\"image/png\">\
        <media:description type=\"plain\">alt</media:description>\
        </media:content>\
        </item></channel></rss>";
    let feed = Feed::parse(xml).unwrap();
    let mut store = StoreModel::new();
    let mut run = new_run(1);
    run.begin_fetch();
    run.begin(feed, "");
    run.compute_backlog();

    run.next_media_url().unwrap();
    run.media_fetched(vec![1u8, 2]);
    let (msg, batch) = run.prepare_publish().unwrap();
    let head = store.head();
    store.commit(head, &batch).unwrap();
    run.published();

    assert_eq!(RunPhase::Done, run.phase());
    assert_eq!("add 2023-02-04-toot-g1.md", msg);
    let expected_doc = "--\ntitle: Sat 04 Feb 2023 19:01\ninstance: example.net\n\
        toot_url: https://example.net/@u/g1\ndate: 2023-02-04T19:01:20+00:00\n--\n\n\
        post body\n\n\
        ![alt](/example.net/pic.png)\n";
    let doc = store
        .read_file("content/microposts/2023-02-04-toot-g1.md")
        .unwrap()
        .clone();
    assert_eq!(expected_doc, String::from_utf8(doc).unwrap());
    assert_eq!(
        vec![1u8, 2],
        *store.read_file("static/example.net/pic.png").unwrap()
    );
    assert_eq!(b"g1".to_vec(), *store.read_file("static/id.txt").unwrap());
}

#[test]
fn failing_second_media_fetch_commits_nothing() {
    // two media references; the second fetch fails
    let medias = vec![
        MediaRef {
            url: "https://files.example.net/one.png".to_string(),
            mime_type: "image/png".to_string(),
            description: "one".to_string(),
        },
        MediaRef {
            url: "https://files.example.net/two.png".to_string(),
            mime_type: "image/png".to_string(),
            description: "two".to_string(),
        },
    ];
    let feed = Feed { entries: vec![entry("g1", medias)] };
    let store = StoreModel::new();
    let mut run = new_run(1);
    run.begin_fetch();
    run.begin(feed, "");
    run.compute_backlog();

    assert!(run.next_media_url().is_some());
    run.media_fetched(vec![1u8]);
    assert!(run.next_media_url().is_some());
    let err = run.media_failed();

    // the error names the failing URL, and the run is over
    assert_eq!("https://files.example.net/two.png", err.url);
    assert_eq!(RunPhase::Failed, run.phase());
    assert_eq!(0, run.published_count());

    // nothing of the entry reached the store: no document, no media,
    // no watermark update
    assert!(store
        .read_file("content/microposts/2023-02-04-toot-g1.md")
        .is_none());
    assert!(store.read_file("static/example.net/one.png").is_none());
    assert!(store.read_file("static/example.net/two.png").is_none());
    assert!(store.read_file("static/id.txt").is_none());
}

#[test]
fn unfetchable_inputs_fail_the_run() {
    let mut run = new_run(1);
    run.begin_fetch();
    // the feed document did not parse, or the watermark could not be read
    run.fetch_failed();
    assert_eq!(RunPhase::Failed, run.phase());
    assert_eq!(0, run.published_count());
}

#[test]
fn unparsable_publish_date_fails_the_run_before_any_commit() {
    let mut bad = entry("g1", vec![]);
    bad.pub_date = "not a date".to_string();
    let feed = Feed { entries: vec![bad] };
    let mut run = new_run(1);
    run.begin_fetch();
    run.begin(feed, "");
    run.compute_backlog();
    assert_eq!(RunPhase::Mirroring, run.phase());
    assert!(run.next_media_url().is_none());
    assert!(run.prepare_publish().is_err());
    assert_eq!(RunPhase::Failed, run.phase());
    assert_eq!(0, run.published_count());
}

#[test]
fn rejected_commit_fails_the_run_and_keeps_the_watermark() {
    let feed = Feed { entries: vec![entry("g1", vec![])] };
    let mut store = StoreModel::new();
    // another writer advances the head first
    store.commit(0, &vec![]).unwrap();
    let mut run = new_run(1);
    run.begin_fetch();
    run.begin(feed, "");
    run.compute_backlog();
    let (_, batch) = run.prepare_publish().unwrap();
    // the head this run resolved is stale
    let r = store.commit(0, &batch);
    assert!(r.is_err());
    run.publish_failed();
    assert_eq!(RunPhase::Failed, run.phase());
    assert_eq!("", run.watermark().as_str());
    assert!(store.read_file("static/id.txt").is_none());
}
