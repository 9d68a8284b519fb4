//! Posts: what creating one stores and answers, and how a stored post is read
//! back with its hashtags and mentions.

use vstd::prelude::*;
use crate::clock::{is_rfc3339_utc, is_v4_uuid_text, new_v4_uuid, now_rfc3339};
use crate::error::ApiError;
use crate::parsing::{
    check_content, content_well_formed, extract_hashtags, extract_mentions, hashtags_of,
    mentions_of, strs,
};
use crate::text::{lowercase, str_to_lowercase};
use crate::users::opt_chars;

verus! {

/// A request to create a post.  The attachment, if any, is JSON text.
pub struct CreatePostRequest {
    pub author_uuid: String,
    pub content: String,
    pub post_type: Option<String>,
    pub attachment_data: Option<String>,
}

/// The contents of a request to create a post.
pub struct CreatePostView {
    pub author_uuid: Seq<char>,
    pub content: Seq<char>,
    pub post_type: Option<Seq<char>>,
    pub attachment_data: Option<Seq<char>>,
}

impl View for CreatePostRequest {
    type V = CreatePostView;

    open spec fn view(&self) -> CreatePostView {
        CreatePostView {
            author_uuid: self.author_uuid@,
            content: self.content@,
            post_type: opt_chars(self.post_type),
            attachment_data: opt_chars(self.attachment_data),
        }
    }
}

/// A post about to be stored: its row, the hashtag rows that go with it, and
/// the hashtags and mentions of its content.
pub struct NewPost {
    pub id: String,
    pub author_uuid: String,
    pub content: String,
    pub post_type: String,
    pub attachment_data: Option<String>,
    pub created_at: String,
    pub hashtags: Vec<String>,
    pub mentions: Vec<String>,
    /// The tags stored in the hashtag table, one row each.
    pub hashtag_rows: Vec<String>,
}

/// The contents of a post about to be stored.
pub struct NewPostView {
    pub id: Seq<char>,
    pub author_uuid: Seq<char>,
    pub content: Seq<char>,
    pub post_type: Seq<char>,
    pub attachment_data: Option<Seq<char>>,
    pub created_at: Seq<char>,
    pub hashtags: Seq<Seq<char>>,
    pub mentions: Seq<Seq<char>>,
    pub hashtag_rows: Seq<Seq<char>>,
}

impl View for NewPost {
    type V = NewPostView;

    open spec fn view(&self) -> NewPostView {
        NewPostView {
            id: self.id@,
            author_uuid: self.author_uuid@,
            content: self.content@,
            post_type: self.post_type@,
            attachment_data: opt_chars(self.attachment_data),
            created_at: self.created_at@,
            hashtags: strs(self.hashtags@),
            mentions: strs(self.mentions@),
            hashtag_rows: strs(self.hashtag_rows@),
        }
    }
}

/// A post as the API answers it.
pub struct PostRecord {
    pub id: String,
    pub author_uuid: String,
    pub author_username: String,
    pub author_badge: String,
    pub content: String,
    pub post_type: String,
    pub attachment_data: Option<String>,
    pub created_at: String,
    pub likes: i32,
    pub liked_by_me: bool,
    pub hashtags: Vec<String>,
    pub mentions: Vec<String>,
}

/// The contents of a post as the API answers it.
pub struct PostView {
    pub id: Seq<char>,
    pub author_uuid: Seq<char>,
    pub author_username: Seq<char>,
    pub author_badge: Seq<char>,
    pub content: Seq<char>,
    pub post_type: Seq<char>,
    pub attachment_data: Option<Seq<char>>,
    pub created_at: Seq<char>,
    pub likes: i32,
    pub liked_by_me: bool,
    pub hashtags: Seq<Seq<char>>,
    pub mentions: Seq<Seq<char>>,
}

impl View for PostRecord {
    type V = PostView;

    open spec fn view(&self) -> PostView {
        PostView {
            id: self.id@,
            author_uuid: self.author_uuid@,
            author_username: self.author_username@,
            author_badge: self.author_badge@,
            content: self.content@,
            post_type: self.post_type@,
            attachment_data: opt_chars(self.attachment_data),
            created_at: self.created_at@,
            likes: self.likes,
            liked_by_me: self.liked_by_me,
            hashtags: strs(self.hashtags@),
            mentions: strs(self.mentions@),
        }
    }
}

/// A stored post joined with its author's profile, as read from the store.
pub struct PostRow {
    pub id: String,
    pub author_uuid: String,
    pub content: String,
    pub post_type: String,
    pub attachment_data: Option<String>,
    pub created_at: String,
    pub likes: i32,
    pub author_username: String,
    pub author_badge: String,
}

/// The contents of a stored post joined with its author's profile.
pub struct PostRowView {
    pub id: Seq<char>,
    pub author_uuid: Seq<char>,
    pub content: Seq<char>,
    pub post_type: Seq<char>,
    pub attachment_data: Option<Seq<char>>,
    pub created_at: Seq<char>,
    pub likes: i32,
    pub author_username: Seq<char>,
    pub author_badge: Seq<char>,
}

impl View for PostRow {
    type V = PostRowView;

    open spec fn view(&self) -> PostRowView {
        PostRowView {
            id: self.id@,
            author_uuid: self.author_uuid@,
            content: self.content@,
            post_type: self.post_type@,
            attachment_data: opt_chars(self.attachment_data),
            created_at: self.created_at@,
            likes: self.likes,
            author_username: self.author_username@,
            author_badge: self.author_badge@,
        }
    }
}

/// The post type of a request; posts without one are text posts.
pub open spec fn post_type_of(req: CreatePostView) -> Seq<char> {
    match req.post_type {
        Some(t) => t,
        None => "text"@,
    }
}

/// The post stored for `req` under identifier `id` at time `now`.
pub open spec fn drafted_post(req: CreatePostView, id: Seq<char>, now: Seq<char>) -> NewPostView {
    let hashtags = hashtags_of(req.content)->0;
    NewPostView {
        id: id,
        author_uuid: req.author_uuid,
        content: req.content,
        post_type: post_type_of(req),
        attachment_data: req.attachment_data,
        created_at: now,
        hashtags: hashtags,
        mentions: mentions_of(req.content)->0,
        hashtag_rows: hashtags.map_values(|t: Seq<char>| lowercase(t)),
    }
}

/// The reply to a created post, given the author's username and badge as read
/// back from the store; both are empty if that read found nothing.
pub open spec fn created_record(p: NewPostView, author: Option<(Seq<char>, Seq<char>)>) -> PostView {
    let (username, badge) = match author {
        Some(a) => a,
        None => (Seq::empty(), Seq::empty()),
    };
    PostView {
        id: p.id,
        author_uuid: p.author_uuid,
        author_username: username,
        author_badge: badge,
        content: p.content,
        post_type: p.post_type,
        attachment_data: p.attachment_data,
        created_at: p.created_at,
        likes: 0,
        liked_by_me: false,
        hashtags: p.hashtags,
        mentions: p.mentions,
    }
}

/// A stored post as the API answers it.
pub open spec fn post_of_row(row: PostRowView) -> PostView {
    PostView {
        id: row.id,
        author_uuid: row.author_uuid,
        author_username: row.author_username,
        author_badge: row.author_badge,
        content: row.content,
        post_type: row.post_type,
        attachment_data: row.attachment_data,
        created_at: row.created_at,
        likes: row.likes,
        liked_by_me: false,
        hashtags: hashtags_of(row.content)->0,
        mentions: mentions_of(row.content)->0,
    }
}

/// The lower-cased form of each tag.
fn lowercase_all(tags: &Vec<String>) -> (r: Vec<String>)
    ensures
        strs(r@) == strs(tags@).map_values(|t: Seq<char>| lowercase(t)),
{
    let mut out: Vec<String> = Vec::new();
    let mut k: usize = 0;
    while k < tags.len()
        invariant
            k <= tags@.len(),
            strs(out@) == strs(tags@).take(k as int).map_values(|t: Seq<char>| lowercase(t)),
        decreases tags@.len() - k,
    {
        let t = str_to_lowercase(tags[k].as_str());
        let ghost before = out@;
        out.push(t);
        assert(strs(out@) =~= strs(before).push(lowercase(tags@[k as int]@)));
        assert(strs(tags@).take(k + 1) =~= strs(tags@).take(k as int).push(tags@[k as int]@));
        assert(strs(out@) =~= strs(tags@).take(k + 1).map_values(|t: Seq<char>| lowercase(t)));
        k = k + 1;
    }
    assert(strs(tags@).take(k as int) =~= strs(tags@));
    out
}

/// The post to store for `req` under identifier `id` at time `now`.
pub fn draft_post(req: CreatePostRequest, id: String, now: String) -> (r: NewPost)
    requires
        content_well_formed(req.content@),
    ensures
        r@ == drafted_post(req@, id@, now@),
{
    let hashtags = extract_hashtags(req.content.as_str());
    let mentions = extract_mentions(req.content.as_str());
    let hashtag_rows = lowercase_all(&hashtags);
    let post_type = match req.post_type {
        Some(t) => t,
        None => "text".to_owned(),
    };
    NewPost {
        id: id,
        author_uuid: req.author_uuid,
        content: req.content,
        post_type: post_type,
        attachment_data: req.attachment_data,
        created_at: now,
        hashtags: hashtags,
        mentions: mentions,
        hashtag_rows: hashtag_rows,
    }
}

/// Creates a post for `req`, given whether its author is registered.  An
/// unregistered author is refused.  Otherwise, if the content holds a tag word
/// that trims down to nothing, no post can be made and the result is `None`;
/// else the post gets a fresh random identifier and the current time.
pub fn create_post(req: CreatePostRequest, author_registered: bool) -> (r: Option<Result<NewPost, ApiError>>)
    ensures
        !author_registered ==> r == Some(Err::<NewPost, ApiError>(ApiError::UserNotRegistered)),
        author_registered && !content_well_formed(req@.content) ==> r is None,
        author_registered && content_well_formed(req@.content) ==> (r matches Some(Ok(p)) && p@
            == drafted_post(req@, p@.id, p@.created_at) && is_v4_uuid_text(p@.id) && is_rfc3339_utc(
            p@.created_at,
        )),
{
    if !author_registered {
        return Some(Err(ApiError::UserNotRegistered));
    }
    let id = new_v4_uuid();
    let now = now_rfc3339();
    if !check_content(req.content.as_str()) {
        return None;
    }
    Some(Ok(draft_post(req, id, now)))
}

impl NewPost {
    /// The reply to the created post, given the author's username and badge
    /// as read back from the store, if that read found them.
    pub fn into_record(self, author: Option<(String, String)>) -> (r: PostRecord)
        ensures
            r@ == created_record(
                self@,
                match author {
                    Some(a) => Some((a.0@, a.1@)),
                    None => None,
                },
            ),
    {
        let (author_username, author_badge) = match author {
            Some(a) => a,
            None => (String::new(), String::new()),
        };
        PostRecord {
            id: self.id,
            author_uuid: self.author_uuid,
            author_username: author_username,
            author_badge: author_badge,
            content: self.content,
            post_type: self.post_type,
            attachment_data: self.attachment_data,
            created_at: self.created_at,
            likes: 0,
            liked_by_me: false,
            hashtags: self.hashtags,
            mentions: self.mentions,
        }
    }
}

/// A stored post as the API answers it, with the hashtags and mentions of its
/// content.
pub fn record_from_row(row: PostRow) -> (r: PostRecord)
    requires
        content_well_formed(row.content@),
    ensures
        r@ == post_of_row(row@),
{
    let hashtags = extract_hashtags(row.content.as_str());
    let mentions = extract_mentions(row.content.as_str());
    PostRecord {
        id: row.id,
        author_uuid: row.author_uuid,
        author_username: row.author_username,
        author_badge: row.author_badge,
        content: row.content,
        post_type: row.post_type,
        attachment_data: row.attachment_data,
        created_at: row.created_at,
        likes: row.likes,
        liked_by_me: false,
        hashtags: hashtags,
        mentions: mentions,
    }
}

/// A stored post as the API answers it; `None` if its content holds a tag word
/// that trims down to nothing, from which no reply can be made.
pub fn post_from_row(row: PostRow) -> (r: Option<PostRecord>)
    ensures
        content_well_formed(row@.content) ==> (r matches Some(p) && p@ == post_of_row(row@)),
        !content_well_formed(row@.content) ==> r is None,
{
    if check_content(row.content.as_str()) {
        Some(record_from_row(row))
    } else {
        None
    }
}

/// Reading a created post back from the store answers exactly what its
/// creation answered, as long as the author's profile read is the same; and
/// reading it back never fails on its content.
pub proof fn law_read_back_matches_creation(
    req: CreatePostView,
    id: Seq<char>,
    now: Seq<char>,
    row: PostRowView,
)
    requires
        content_well_formed(req.content),
        row.id == id,
        row.author_uuid == req.author_uuid,
        row.content == req.content,
        row.post_type == post_type_of(req),
        row.attachment_data == req.attachment_data,
        row.created_at == now,
        row.likes == 0,
    ensures
        content_well_formed(row.content),
        post_of_row(row) == created_record(
            drafted_post(req, id, now),
            Some((row.author_username, row.author_badge)),
        ),
{
}

/// A stored post is answered with everything the store holds for it: its
/// identifier, author, content, post type, attachment, time and like count,
/// and the author's username and badge; it is never marked as liked.
pub proof fn law_reply_keeps_stored_fields(row: PostRowView)
    ensures
        post_of_row(row).id == row.id,
        post_of_row(row).author_uuid == row.author_uuid,
        post_of_row(row).author_username == row.author_username,
        post_of_row(row).author_badge == row.author_badge,
        post_of_row(row).content == row.content,
        post_of_row(row).post_type == row.post_type,
        post_of_row(row).attachment_data == row.attachment_data,
        post_of_row(row).created_at == row.created_at,
        post_of_row(row).likes == row.likes,
        !post_of_row(row).liked_by_me,
{
}

/// A created post keeps what its request asked for: its author, content,
/// attachment and post type (a text post when none is given), and the reply
/// to it carries the same, with no likes.
pub proof fn law_created_post_keeps_request(
    req: CreatePostView,
    id: Seq<char>,
    now: Seq<char>,
    author: Option<(Seq<char>, Seq<char>)>,
)
    ensures
        drafted_post(req, id, now).id == id,
        drafted_post(req, id, now).created_at == now,
        drafted_post(req, id, now).author_uuid == req.author_uuid,
        drafted_post(req, id, now).content == req.content,
        drafted_post(req, id, now).attachment_data == req.attachment_data,
        req.post_type matches Some(t) ==> drafted_post(req, id, now).post_type == t,
        req.post_type is None ==> drafted_post(req, id, now).post_type == "text"@,
        created_record(drafted_post(req, id, now), author).id == id,
        created_record(drafted_post(req, id, now), author).author_uuid == req.author_uuid,
        created_record(drafted_post(req, id, now), author).content == req.content,
        created_record(drafted_post(req, id, now), author).post_type == drafted_post(req, id, now).post_type,
        created_record(drafted_post(req, id, now), author).attachment_data == req.attachment_data,
        created_record(drafted_post(req, id, now), author).created_at == now,
        created_record(drafted_post(req, id, now), author).likes == 0,
        !created_record(drafted_post(req, id, now), author).liked_by_me,
        author matches Some(a) ==> created_record(drafted_post(req, id, now), author).author_username == a.0
            && created_record(drafted_post(req, id, now), author).author_badge == a.1,
{
}

} // verus!
