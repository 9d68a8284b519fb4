use amt_social::error::ApiError;
use amt_social::posts::{create_post, draft_post, post_from_row, CreatePostRequest, PostRow};

fn request(content: &str, post_type: Option<&str>) -> CreatePostRequest {
    CreatePostRequest {
        author_uuid: "u-1".to_string(),
        content: content.to_string(),
        post_type: post_type.map(|t| t.to_string()),
        attachment_data: Some("{\"server_id\":\"s1\"}".to_string()),
    }
}

fn row(content: &str) -> PostRow {
    PostRow {
        id: "p-1".to_string(),
        author_uuid: "u-1".to_string(),
        content: content.to_string(),
        post_type: "text".to_string(),
        attachment_data: None,
        created_at: "T".to_string(),
        likes: 3,
        author_username: "Steve".to_string(),
        author_badge: "gold".to_string(),
    }
}

#[test]
fn an_unregistered_author_is_refused() {
    match create_post(request("#hi", None), false) {
        Some(Err(e)) => {
            assert_eq!(e, ApiError::UserNotRegistered);
            assert_eq!(e.status(), 400);
            assert_eq!(e.message(), "User not registered. Call /api/social/register first.");
        },
        _ => panic!("expected a refusal"),
    }
    // The author is checked before the content.
    assert!(matches!(create_post(request("#!", None), false), Some(Err(ApiError::UserNotRegistered))));
}

#[test]
fn content_with_a_broken_tag_cannot_be_posted() {
    assert!(create_post(request("look #!", None), true).is_none());
    assert!(create_post(request("@?", None), true).is_none());
}

#[test]
fn a_post_is_drafted_with_tags_and_defaults() {
    let p = draft_post(request("Join #MyServer with @Alex", None), "id-1".to_string(), "T".to_string());
    assert_eq!(p.id, "id-1");
    assert_eq!(p.author_uuid, "u-1");
    assert_eq!(p.post_type, "text");
    assert_eq!(p.created_at, "T");
    assert_eq!(p.hashtags, vec!["myserver"]);
    assert_eq!(p.mentions, vec!["alex"]);
    assert_eq!(p.hashtag_rows, vec!["myserver"]);
    assert_eq!(p.attachment_data, Some("{\"server_id\":\"s1\"}".to_string()));
}

#[test]
fn hashtag_rows_are_lowercased_again() {
    let p = draft_post(request("#İstanbul", None), "id".to_string(), "T".to_string());
    assert_eq!(p.hashtags, vec!["i\u{307}stanbul"]);
    assert_eq!(p.hashtag_rows, vec!["i\u{307}stanbul"]);
}

#[test]
fn a_given_post_type_is_kept() {
    let p = draft_post(request("come play", Some("server_invite")), "id".to_string(), "T".to_string());
    assert_eq!(p.post_type, "server_invite");
}

#[test]
fn a_created_post_gets_a_fresh_id_and_time() {
    let p = match create_post(request("#a @b", None), true) {
        Some(Ok(p)) => p,
        _ => panic!("expected a post"),
    };
    assert_eq!(p.id.len(), 36);
    assert_eq!(p.id.as_bytes()[14], b'4');
    for (i, c) in p.id.chars().enumerate() {
        if i == 8 || i == 13 || i == 18 || i == 23 {
            assert_eq!(c, '-');
        } else {
            assert!(c.is_ascii_hexdigit() && !c.is_ascii_uppercase());
        }
    }
    assert!(p.created_at.ends_with("+00:00"));
    let q = match create_post(request("#a @b", None), true) {
        Some(Ok(q)) => q,
        _ => panic!("expected a post"),
    };
    assert_ne!(p.id, q.id);
}

#[test]
fn the_reply_to_a_new_post_has_no_likes() {
    let p = draft_post(request("#a", None), "id".to_string(), "T".to_string());
    let r = p.into_record(Some(("Steve".to_string(), "gold".to_string())));
    assert_eq!(r.likes, 0);
    assert!(!r.liked_by_me);
    assert_eq!(r.author_username, "Steve");
    assert_eq!(r.author_badge, "gold");
    assert_eq!(r.hashtags, vec!["a"]);
}

#[test]
fn a_missing_author_reads_as_empty() {
    let p = draft_post(request("x", None), "id".to_string(), "T".to_string());
    let r = p.into_record(None);
    assert_eq!(r.author_username, "");
    assert_eq!(r.author_badge, "");
}

#[test]
fn a_stored_post_reads_back_with_its_tags() {
    let r = post_from_row(row("#Build @Jeb")).unwrap();
    assert_eq!(r.id, "p-1");
    assert_eq!(r.likes, 3);
    assert!(!r.liked_by_me);
    assert_eq!(r.hashtags, vec!["build"]);
    assert_eq!(r.mentions, vec!["jeb"]);
    assert_eq!(r.author_username, "Steve");
}

#[test]
fn a_stored_post_with_a_broken_tag_cannot_be_read() {
    assert!(post_from_row(row("#!")).is_none());
}

#[test]
fn reading_back_answers_what_creation_answered() {
    let p = draft_post(request("#Mine @Craft", None), "id".to_string(), "T".to_string());
    let created = draft_post(request("#Mine @Craft", None), "id".to_string(), "T".to_string())
        .into_record(Some(("Steve".to_string(), "gold".to_string())));
    let stored = PostRow {
        id: p.id.clone(),
        author_uuid: p.author_uuid.clone(),
        content: p.content.clone(),
        post_type: p.post_type.clone(),
        attachment_data: p.attachment_data.clone(),
        created_at: p.created_at.clone(),
        likes: 0,
        author_username: "Steve".to_string(),
        author_badge: "gold".to_string(),
    };
    let read = post_from_row(stored).unwrap();
    assert_eq!(read.hashtags, created.hashtags);
    assert_eq!(read.mentions, created.mentions);
    assert_eq!(read.post_type, created.post_type);
    assert_eq!(read.attachment_data, created.attachment_data);
    assert_eq!(read.likes, created.likes);
}
