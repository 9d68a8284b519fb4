use amt_social::feed::{feed_response, plan_feed, FeedQuery};
use amt_social::posts::{draft_post, CreatePostRequest, PostRow};

fn query() -> FeedQuery {
    FeedQuery { tag: None, user: None, search: None, limit: None, offset: None }
}

const HEAD: &str = "SELECT p.id, p.author_uuid, p.content, p.post_type, p.attachment_data, p.created_at, p.likes, u.minecraft_username, u.badge FROM posts p JOIN users u ON p.author_uuid = u.uuid ";
const TAIL: &str = " ORDER BY (p.likes * 10 + CAST((julianday('now') - julianday(p.created_at)) * -24 AS INTEGER)) DESC LIMIT ? OFFSET ?";

#[test]
fn an_unfiltered_feed_has_no_where_clause() {
    let plan = plan_feed(&query());
    assert_eq!(plan.where_sql, "");
    assert!(plan.params.is_empty());
    assert_eq!(plan.limit, 50);
    assert_eq!(plan.offset, 0);
    assert_eq!(plan.count_sql, "SELECT COUNT(*) FROM posts p ");
    assert_eq!(plan.feed_sql, format!("{HEAD}{TAIL}"));
}

#[test]
fn all_filters_combine_with_and() {
    let q = FeedQuery {
        tag: Some("PvP".to_string()),
        user: Some("u-1".to_string()),
        search: Some("castle".to_string()),
        limit: Some(10),
        offset: Some(20),
    };
    let plan = plan_feed(&q);
    assert_eq!(
        plan.where_sql,
        "WHERE p.id IN (SELECT post_id FROM hashtags WHERE tag = ?) AND p.author_uuid = ? AND p.content LIKE ?"
    );
    assert_eq!(plan.params, vec!["pvp", "u-1", "%castle%"]);
    assert_eq!(plan.limit, 10);
    assert_eq!(plan.offset, 20);
    assert_eq!(plan.count_sql, format!("SELECT COUNT(*) FROM posts p {}", plan.where_sql));
    assert_eq!(plan.feed_sql, format!("{HEAD}{}{TAIL}", plan.where_sql));
}

#[test]
fn a_single_filter_stands_alone() {
    let mut q = query();
    q.search = Some("50%".to_string());
    let plan = plan_feed(&q);
    assert_eq!(plan.where_sql, "WHERE p.content LIKE ?");
    assert_eq!(plan.params, vec!["%50%%"]);
    let mut q = query();
    q.user = Some("u-9".to_string());
    assert_eq!(plan_feed(&q).where_sql, "WHERE p.author_uuid = ?");
}

#[test]
fn pages_are_capped_at_200() {
    let mut q = query();
    q.limit = Some(500);
    assert_eq!(plan_feed(&q).limit, 200);
    q.limit = Some(200);
    assert_eq!(plan_feed(&q).limit, 200);
    q.limit = Some(-1);
    assert_eq!(plan_feed(&q).limit, -1);
}

fn row(content: &str) -> PostRow {
    PostRow {
        id: "p".to_string(),
        author_uuid: "u".to_string(),
        content: content.to_string(),
        post_type: "text".to_string(),
        attachment_data: Some("{}".to_string()),
        created_at: "T".to_string(),
        likes: 1,
        author_username: "Steve".to_string(),
        author_badge: "".to_string(),
    }
}

#[test]
fn a_feed_reply_carries_each_post_with_its_tags() {
    let rows = vec![row("#One"), row("@two")];
    let f = feed_response(&rows, Some(7)).unwrap();
    assert_eq!(f.total, 7);
    assert_eq!(f.posts.len(), 2);
    assert_eq!(f.posts[0].hashtags, vec!["one"]);
    assert_eq!(f.posts[1].mentions, vec!["two"]);
    assert_eq!(f.posts[0].attachment_data, Some("{}".to_string()));
}

#[test]
fn a_failed_count_reads_as_zero() {
    let f = feed_response(&vec![], None).unwrap();
    assert_eq!(f.total, 0);
    assert!(f.posts.is_empty());
}

#[test]
fn a_broken_row_spoils_the_feed() {
    assert!(feed_response(&vec![row("#ok"), row("#!")], Some(2)).is_none());
}

#[test]
fn filtering_by_a_posts_hashtag_binds_its_stored_tag() {
    let req = CreatePostRequest {
        author_uuid: "u".to_string(),
        content: "new build #SkyBlock".to_string(),
        post_type: None,
        attachment_data: None,
    };
    let post = draft_post(req, "id".to_string(), "T".to_string());
    let mut q = query();
    q.tag = Some(post.hashtags[0].clone());
    let plan = plan_feed(&q);
    assert_eq!(plan.params[0], post.hashtag_rows[0]);
    assert_eq!(plan.params[0], "skyblock");
}
