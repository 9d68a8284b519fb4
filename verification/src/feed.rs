//! The global feed: the query that a set of filters turns into, and the reply
//! built from the rows it returns.
//!
//! Filters combine with `AND`: a hashtag (matched lower-cased), an author, and
//! a search string (matched anywhere in the content).  Pages hold 50 posts
//! unless asked otherwise, and a page size above 200 is cut to 200; a negative
//! page size is passed on as it is, and the store then returns every match.
//! Posts are ranked by likes and recency inside the store.

use vstd::prelude::*;
use crate::parsing::{check_content, content_well_formed, strs};
use crate::posts::{
    drafted_post, post_of_row, record_from_row, CreatePostView, PostRecord, PostRow, PostView,
};
use crate::text::{lowercase, str_to_lowercase};
use crate::users::{clone_opt, opt_chars};

verus! {

/// The filters and paging of a feed request.
pub struct FeedQuery {
    pub tag: Option<String>,
    pub user: Option<String>,
    pub search: Option<String>,
    pub limit: Option<i64>,
    pub offset: Option<i64>,
}

/// The contents of a feed request.
pub struct FeedQueryView {
    pub tag: Option<Seq<char>>,
    pub user: Option<Seq<char>>,
    pub search: Option<Seq<char>>,
    pub limit: Option<i64>,
    pub offset: Option<i64>,
}

impl View for FeedQuery {
    type V = FeedQueryView;

    open spec fn view(&self) -> FeedQueryView {
        FeedQueryView {
            tag: opt_chars(self.tag),
            user: opt_chars(self.user),
            search: opt_chars(self.search),
            limit: self.limit,
            offset: self.offset,
        }
    }
}

/// The queries that answer a feed request, with the values bound to their
/// placeholders: first `params`, then (in the feed query only) `limit` and
/// `offset`.
pub struct FeedPlan {
    /// The `WHERE` clause, empty when no filter is given.
    pub where_sql: String,
    pub params: Vec<String>,
    /// Counts all posts that pass the filters.
    pub count_sql: String,
    /// Selects one page of those posts with their authors, best ranked first.
    pub feed_sql: String,
    pub limit: i64,
    pub offset: i64,
}

/// The condition of the hashtag filter.
pub open spec fn tag_condition() -> Seq<char> {
    "p.id IN (SELECT post_id FROM hashtags WHERE tag = ?)"@
}

/// The condition of the author filter.
pub open spec fn user_condition() -> Seq<char> {
    "p.author_uuid = ?"@
}

/// The condition of the search filter.
pub open spec fn search_condition() -> Seq<char> {
    "p.content LIKE ?"@
}

/// The start of the count query, which the `WHERE` clause follows.
pub open spec fn count_head() -> Seq<char> {
    "SELECT COUNT(*) FROM posts p "@
}

/// The start of the feed query, which the `WHERE` clause follows.
pub open spec fn feed_head() -> Seq<char> {
    "SELECT p.id, p.author_uuid, p.content, p.post_type, p.attachment_data, p.created_at, p.likes, u.minecraft_username, u.badge FROM posts p JOIN users u ON p.author_uuid = u.uuid "@
}

/// The end of the feed query, after the `WHERE` clause: ranking by ten points
/// a like minus 24 points a day of age, and paging.
pub open spec fn feed_tail() -> Seq<char> {
    " ORDER BY (p.likes * 10 + CAST((julianday('now') - julianday(p.created_at)) * -24 AS INTEGER)) DESC LIMIT ? OFFSET ?"@
}

/// The filters of a request, in order, each as its condition and the value
/// bound to its placeholder.
pub open spec fn feed_filters(q: FeedQueryView) -> Seq<(Seq<char>, Seq<char>)> {
    let tag = match q.tag {
        Some(t) => seq![(tag_condition(), lowercase(t))],
        None => Seq::empty(),
    };
    let user = match q.user {
        Some(u) => seq![(user_condition(), u)],
        None => Seq::empty(),
    };
    let search = match q.search {
        Some(s) => seq![(search_condition(), "%"@ + s + "%"@)],
        None => Seq::empty(),
    };
    tag + user + search
}

/// The conditions of a list of filters.
pub open spec fn conditions(fs: Seq<(Seq<char>, Seq<char>)>) -> Seq<Seq<char>> {
    fs.map_values(|f: (Seq<char>, Seq<char>)| f.0)
}

/// The values bound by a list of filters.
pub open spec fn bound_values(fs: Seq<(Seq<char>, Seq<char>)>) -> Seq<Seq<char>> {
    fs.map_values(|f: (Seq<char>, Seq<char>)| f.1)
}

/// The `WHERE` clause that joins the conditions with `AND`; empty when there
/// are none.
pub open spec fn where_clause(cs: Seq<Seq<char>>) -> Seq<char>
    decreases cs.len(),
{
    if cs.len() == 0 {
        Seq::empty()
    } else if cs.len() == 1 {
        "WHERE "@ + cs[0]
    } else {
        where_clause(cs.drop_last()) + " AND "@ + cs.last()
    }
}

/// The page size asked for, 50 if none, capped at 200; a negative size is
/// passed on unchanged.
pub open spec fn page_limit(q: FeedQueryView) -> i64 {
    let l = match q.limit {
        Some(l) => l,
        None => 50,
    };
    if l < 200 {
        l
    } else {
        200
    }
}

/// The number of posts to skip, 0 if none is asked for.
pub open spec fn page_offset(q: FeedQueryView) -> i64 {
    match q.offset {
        Some(o) => o,
        None => 0,
    }
}

/// Appends a condition to a `WHERE` clause that holds `n` conditions.
fn push_condition(w: &mut String, n: usize, cond: &str)
    requires
        n == 0 ==> old(w)@.len() == 0,
    ensures
        final(w)@ == if n == 0 {
            "WHERE "@ + cond@
        } else {
            old(w)@ + " AND "@ + cond@
        },
{
    if n == 0 {
        assert(old(w)@ =~= Seq::<char>::empty());
        w.append("WHERE ");
        w.append(cond);
    } else {
        w.append(" AND ");
        w.append(cond);
    }
}

/// The queries, bound values and paging that answer a feed request.
pub fn plan_feed(q: &FeedQuery) -> (r: FeedPlan)
    ensures
        r.where_sql@ == where_clause(conditions(feed_filters(q@))),
        strs(r.params@) == bound_values(feed_filters(q@)),
        r.count_sql@ == count_head() + r.where_sql@,
        r.feed_sql@ == feed_head() + r.where_sql@ + feed_tail(),
        r.limit == page_limit(q@),
        r.offset == page_offset(q@),
{
    let ghost mut fs: Seq<(Seq<char>, Seq<char>)> = Seq::empty();
    let mut where_sql = String::new();
    let mut params: Vec<String> = Vec::new();
    if let Some(tag) = &q.tag {
        let cond = "p.id IN (SELECT post_id FROM hashtags WHERE tag = ?)";
        push_condition(&mut where_sql, params.len(), cond);
        params.push(str_to_lowercase(tag.as_str()));
        proof {
            fs = fs.push((cond@, lowercase(tag@)));
        }
    }
    assert(conditions(fs).len() == params@.len());
    assert(where_sql@ == where_clause(conditions(fs)));
    assert(strs(params@) =~= bound_values(fs));
    if let Some(user) = &q.user {
        let cond = "p.author_uuid = ?";
        let ghost before = fs;
        push_condition(&mut where_sql, params.len(), cond);
        params.push(user.clone());
        proof {
            fs = fs.push((cond@, user@));
            assert(conditions(fs).drop_last() =~= conditions(before));
        }
    }
    assert(strs(params@) =~= bound_values(fs));
    assert(where_sql@ == where_clause(conditions(fs)));
    if let Some(search) = &q.search {
        let cond = "p.content LIKE ?";
        let ghost before = fs;
        push_condition(&mut where_sql, params.len(), cond);
        let mut pattern = String::new();
        pattern.append("%");
        pattern.append(search.as_str());
        pattern.append("%");
        params.push(pattern);
        proof {
            fs = fs.push((cond@, "%"@ + search@ + "%"@));
            assert(conditions(fs).drop_last() =~= conditions(before));
        }
    }
    assert(strs(params@) =~= bound_values(fs));
    assert(where_sql@ == where_clause(conditions(fs)));
    assert(fs =~= feed_filters(q@));
    let mut count_sql = String::new();
    count_sql.append("SELECT COUNT(*) FROM posts p ");
    count_sql.append(where_sql.as_str());
    let mut feed_sql = String::new();
    feed_sql.append(
        "SELECT p.id, p.author_uuid, p.content, p.post_type, p.attachment_data, p.created_at, p.likes, u.minecraft_username, u.badge FROM posts p JOIN users u ON p.author_uuid = u.uuid ",
    );
    feed_sql.append(where_sql.as_str());
    feed_sql.append(
        " ORDER BY (p.likes * 10 + CAST((julianday('now') - julianday(p.created_at)) * -24 AS INTEGER)) DESC LIMIT ? OFFSET ?",
    );
    let requested = match q.limit {
        Some(l) => l,
        None => 50,
    };
    let limit = if requested < 200 {
        requested
    } else {
        200
    };
    let offset = match q.offset {
        Some(o) => o,
        None => 0,
    };
    FeedPlan { where_sql, params, count_sql, feed_sql, limit, offset }
}

/// The page size never exceeds 200 (a negative size, passed on unchanged,
/// means no limit to the store); without paging parameters a page holds 50
/// posts from the top.
pub proof fn law_feed_paging(q: FeedQueryView)
    ensures
        page_limit(q) <= 200,
        q.limit is None ==> page_limit(q) == 50,
        q.offset is None ==> page_offset(q) == 0,
{
}

/// A requested page size is the smaller of itself and 200: it is passed on
/// unchanged below 200 and cut to 200 above; a requested offset is passed on
/// unchanged.
pub proof fn law_feed_paging_requested(q: FeedQueryView, l: i64, o: i64)
    ensures
        q.limit == Some(l) ==> page_limit(q) <= l && page_limit(q) <= 200 && (page_limit(q) == l
            || page_limit(q) == 200),
        q.offset == Some(o) ==> page_offset(q) == o,
{
}

/// The hashtag filter comes first and binds the tag lower-cased; the author
/// filter binds the author unchanged, after the hashtag filter if any; the
/// search filter comes last and binds the search text between `%` wildcards,
/// so that it matches anywhere in the content.
pub proof fn law_feed_binds_filter_values(q: FeedQueryView)
    ensures
        q.tag matches Some(t) ==> feed_filters(q)[0] == (tag_condition(), lowercase(t)),
        q.user matches Some(u) ==> feed_filters(q)[if q.tag is Some { 1int } else { 0int }] == (
            user_condition(),
            u,
        ),
        q.search matches Some(x) ==> feed_filters(q).last() == (search_condition(), "%"@ + x + "%"@),
        feed_filters(q).len() == (if q.tag is Some { 1int } else { 0int }) + (if q.user is Some {
            1int
        } else {
            0int
        }) + (if q.search is Some { 1int } else { 0int }),
{
}

/// A `WHERE` clause is empty exactly when there is no condition, and each
/// filter binds exactly one value.
pub proof fn law_feed_filters(q: FeedQueryView)
    ensures
        (where_clause(conditions(feed_filters(q))).len() == 0) <==> (q.tag is None && q.user is None
            && q.search is None),
        bound_values(feed_filters(q)).len() == conditions(feed_filters(q)).len(),
{
    reveal_strlit("WHERE ");
    reveal_strlit(" AND ");
    let cs = conditions(feed_filters(q));
    if cs.len() >= 2 {
        assert(where_clause(cs).len() >= where_clause(cs.drop_last()).len() + 5);
    }
}

/// Filtering the feed by one of a created post's hashtags binds exactly the
/// tag stored in that post's hashtag rows, so the post passes the filter.
pub proof fn law_tag_filter_finds_post(req: CreatePostView, id: Seq<char>, now: Seq<char>, i: int, q: FeedQueryView)
    requires
        content_well_formed(req.content),
        0 <= i < drafted_post(req, id, now).hashtags.len(),
        q.tag == Some(drafted_post(req, id, now).hashtags[i]),
    ensures
        feed_filters(q)[0] == (tag_condition(), drafted_post(req, id, now).hashtag_rows[i]),
{
}

/// One page of the feed, and how many posts pass the filters in all.
pub struct FeedResponse {
    pub posts: Vec<PostRecord>,
    pub total: i64,
}

/// The posts of a reply.
pub open spec fn post_views(v: Seq<PostRecord>) -> Seq<PostView> {
    v.map_values(|p: PostRecord| p@)
}

/// Whether every row's content is one from which tags can be extracted.
pub open spec fn rows_well_formed(rows: Seq<PostRow>) -> bool {
    forall|i: int| 0 <= i < rows.len() ==> content_well_formed(#[trigger] rows[i]@.content)
}

fn copy_row(row: &PostRow) -> (r: PostRow)
    ensures
        r@ == row@,
{
    PostRow {
        id: row.id.clone(),
        author_uuid: row.author_uuid.clone(),
        content: row.content.clone(),
        post_type: row.post_type.clone(),
        attachment_data: clone_opt(&row.attachment_data),
        created_at: row.created_at.clone(),
        likes: row.likes,
        author_username: row.author_username.clone(),
        author_badge: row.author_badge.clone(),
    }
}

/// The feed reply for the rows of one page and the count of all matching
/// posts (0 if counting failed); `None` if some row's content holds a tag word
/// that trims down to nothing, from which no reply can be made.
pub fn feed_response(rows: &Vec<PostRow>, count: Option<i64>) -> (r: Option<FeedResponse>)
    ensures
        rows_well_formed(rows@) ==> (r matches Some(f) && post_views(f.posts@) == rows@.map_values(
            |row: PostRow| post_of_row(row@),
        ) && f.total == match count {
            Some(c) => c,
            None => 0,
        }),
        !rows_well_formed(rows@) ==> r is None,
{
    let mut posts: Vec<PostRecord> = Vec::new();
    let mut i: usize = 0;
    while i < rows.len()
        invariant
            i <= rows@.len(),
            rows_well_formed(rows@.take(i as int)),
            post_views(posts@) == rows@.take(i as int).map_values(|row: PostRow| post_of_row(row@)),
        decreases rows@.len() - i,
    {
        let row = copy_row(&rows[i]);
        if !check_content(row.content.as_str()) {
            assert(!rows_well_formed(rows@));
            return None;
        }
        let ghost before = posts@;
        posts.push(record_from_row(row));
        assert(post_views(posts@) =~= post_views(before).push(post_of_row(rows@[i as int]@)));
        assert(rows@.take(i + 1) =~= rows@.take(i as int).push(rows@[i as int]));
        i = i + 1;
        assert(post_views(posts@) =~= rows@.take(i as int).map_values(|row: PostRow| post_of_row(row@)));
        assert(rows_well_formed(rows@.take(i as int)));
    }
    assert(rows@.take(i as int) =~= rows@);
    let total = match count {
        Some(c) => c,
        None => 0,
    };
    Some(FeedResponse { posts, total })
}

} // verus!
