//! The publisher's request payloads, their escaping and encoding, the
//! response extraction, and the atomic store contract.

use tootsync::github::{
    commit_response_ok, json_escape, last_guid_query, mutation_json, oid_from_ref_response,
    watermark_from_blob_response, Github, NewContent, PublishError,
};
use tootsync::download::LocalMedia;
use tootsync::store::StoreModel;

#[test]
fn json_escape_covers_quotes_backslashes_and_controls() {
    assert_eq!("plain text", json_escape("plain text"));
    assert_eq!("a\\\"b", json_escape("a\"b"));
    assert_eq!("a\\\\b", json_escape("a\\b"));
    assert_eq!("a\\nb\\rc\\td", json_escape("a\nb\rc\td"));
    assert_eq!("a\\u0001b\\u001fc", json_escape("a\u{1}b\u{1f}c"));
    assert_eq!("a\\bb\\fc", json_escape("a\u{8}b\u{c}c"));
}

#[test]
fn json_escape_leaves_multibyte_text_alone() {
    assert_eq!("日本 “quote” ’", json_escape("日本 “quote” ’"));
    assert_eq!("café \\\"bar\\\"", json_escape("café \"bar\""));
}

#[test]
fn last_guid_query_is_the_expected_body() {
    let body = last_guid_query("repo", "main", "static/id.txt");
    let expected = "{\"query\":\"query ($name: String!, $expr: String!) { viewer { repository(name: $name) { object(expression: $expr) { ... on Blob { text } } } } }\",\"variables\":{\"expr\":\"main:static/id.txt\",\"name\":\"repo\"}}";
    assert_eq!(expected, body);
}

#[test]
fn mutation_json_is_the_expected_body() {
    let batch = vec![NewContent::text("p.md", "Man")];
    let body = mutation_json("user/repo", "main", "abc123", "add x.md", &batch);
    let expected = "{\"query\":\"mutation ($input: CreateCommitOnBranchInput!) { createCommitOnBranch(input: $input) { commit { url } } }\",\"variables\":{\"input\":{\"branch\":{\"repositoryNameWithOwner\":\"user/repo\",\"branchName\":\"main\"},\"message\":{\"headline\":\"add x.md\"},\"fileChanges\":{\"additions\":[{\"path\":\"p.md\",\"contents\":\"TWFu\"}]},\"expectedHeadOid\":\"abc123\"}}}";
    assert_eq!(expected, body);
}

#[test]
fn base64_contents_are_padded() {
    // one, two and three bytes of content: ==, = and no padding
    let batch = vec![
        NewContent::text("a", "a"),
        NewContent::text("b", "hi"),
        NewContent::path("c", vec![77u8, 97, 110]),
    ];
    let body = mutation_json("u/r", "main", "o", "m", &batch);
    assert!(body.contains("{\"path\":\"a\",\"contents\":\"YQ==\"}"));
    assert!(body.contains("{\"path\":\"b\",\"contents\":\"aGk=\"}"));
    assert!(body.contains("{\"path\":\"c\",\"contents\":\"TWFu\"}"));
}

#[test]
fn paths_and_messages_are_escaped_in_the_mutation() {
    let batch = vec![NewContent::text("a \"quoted\" path", "x")];
    let body = mutation_json("u/r", "main", "o", "add \"it\"\n", &batch);
    assert!(body.contains("{\"path\":\"a \\\"quoted\\\" path\",\"contents\":\"eA==\"}"));
    assert!(body.contains("\"headline\":\"add \\\"it\\\"\\n\"}"));
}

#[test]
fn github_handle_carries_its_configuration() {
    let gh = Github::new("a-bearer-token", "d6y/site", "main");
    assert_eq!("a-bearer-token", gh.token().as_str());
    assert_eq!("d6y/site", gh.repo().as_str());
    assert_eq!("main", gh.branch().as_str());
    assert_eq!("site", gh.short_name());
    let body = gh.last_guid_query_body("static/id.txt");
    assert!(body.contains("\"expr\":\"main:static/id.txt\""));
    assert!(body.contains("\"name\":\"site\""));
    assert_eq!(
        "https://api.github.com/repos/d6y/site/git/ref/heads/main",
        gh.ref_url()
    );
}

#[test]
fn watermark_is_read_from_the_blob_response() {
    let resp =
        "{\"data\":{\"viewer\":{\"repository\":{\"object\":{\"text\":\"guid-123\"}}}}}";
    assert_eq!("guid-123", watermark_from_blob_response(resp).unwrap());

    let missing = "{\"data\":{\"viewer\":{}}}";
    assert_eq!(
        Err(PublishError::MalformedResponse),
        watermark_from_blob_response(missing)
    );
    assert_eq!(
        Err(PublishError::MalformedResponse),
        watermark_from_blob_response("not json")
    );
}

#[test]
fn head_is_read_from_the_ref_response() {
    assert_eq!(
        "abc",
        oid_from_ref_response("{\"object\":{\"sha\":\"abc\"}}").unwrap()
    );
    assert_eq!(
        Err(PublishError::MalformedResponse),
        oid_from_ref_response("{\"object\":{}}")
    );
}

#[test]
fn commit_answers_with_errors_are_rejections() {
    assert!(commit_response_ok("{\"data\":{\"createCommitOnBranch\":{}}}").is_ok());
    assert_eq!(
        Err(PublishError::Rejected),
        commit_response_ok("{\"errors\":[{\"message\":\"stale head\"}]}")
    );
    assert_eq!(
        Err(PublishError::MalformedResponse),
        commit_response_ok("garbage")
    );
}

#[test]
fn committed_batch_is_fully_visible() {
    let mut store = StoreModel::new();
    assert_eq!(0, store.head());
    let batch = vec![
        NewContent::text("content/post.md", "document"),
        NewContent::path("static/pic.png", vec![1u8, 2, 3]),
        NewContent::text("static/id.txt", "guid-9"),
    ];
    store.commit(0, &batch).unwrap();
    assert_eq!(1, store.head());
    assert_eq!(b"document".to_vec(), *store.read_file("content/post.md").unwrap());
    assert_eq!(vec![1u8, 2, 3], *store.read_file("static/pic.png").unwrap());
    assert_eq!(b"guid-9".to_vec(), *store.read_file("static/id.txt").unwrap());
    assert!(store.read_file("missing").is_none());
}

#[test]
fn stale_head_commit_applies_nothing() {
    let mut store = StoreModel::new();
    store
        .commit(0, &vec![NewContent::text("static/id.txt", "guid-1")])
        .unwrap();
    // a writer that resolved the head before another commit advanced it
    let batch = vec![
        NewContent::text("content/new-post.md", "document"),
        NewContent::path("static/new-pic.png", vec![9u8]),
        NewContent::text("static/id.txt", "guid-2"),
    ];
    let r = store.commit(0, &batch);
    assert_eq!(Err(PublishError::Rejected), r);
    // neither the document, nor the media, nor the watermark moved
    assert!(store.read_file("content/new-post.md").is_none());
    assert!(store.read_file("static/new-pic.png").is_none());
    assert_eq!(b"guid-1".to_vec(), *store.read_file("static/id.txt").unwrap());
    assert_eq!(1, store.head());
}

#[test]
fn media_map_transforms_preserve_order_and_bytes() {
    let mut media = LocalMedia::new();
    media.push("https://files.example.net/a.png", vec![1u8]);
    media.push("https://files.example.net/b.png", vec![2u8]);
    assert_eq!(2, media.len());
    let site = media.apply_truncate();
    assert_eq!("/example.net/a.png", site.url_at(0).as_str());
    assert_eq!("/example.net/b.png", site.url_at(1).as_str());
    let deployed = site.apply_prefix("static");
    assert_eq!("static/example.net/a.png", deployed.url_at(0).as_str());
    assert_eq!("static/example.net/b.png", deployed.url_at(1).as_str());
    assert_eq!(vec![1u8], *deployed.content_at(0));
    assert_eq!(vec![2u8], *deployed.content_at(1));
}
