//! Liking: a like request toggles the user's like of a post and moves the
//! post's like counter with it.

use vstd::prelude::*;
use crate::error::ApiError;

verus! {

/// What a like request does.
#[derive(Clone, Copy, Debug, PartialEq, Eq, Structural)]
pub enum LikeAction {
    /// Records the user's like and counts it.
    Like,
    /// Removes the user's like and uncounts it.
    Unlike,
}

/// Whether the store holds a like of the user, given how many like rows the
/// lookup found, or `None` if the lookup failed.
pub open spec fn already_liked(like_rows: Option<i64>) -> bool {
    match like_rows {
        Some(c) => c > 0,
        None => false,
    }
}

/// What a like request does, given the like rows found for the user.
pub open spec fn action_for(like_rows: Option<i64>) -> LikeAction {
    if already_liked(like_rows) {
        LikeAction::Unlike
    } else {
        LikeAction::Like
    }
}

/// The post's like counter after the action: one more for a like (held at
/// the top of the `i64` range), one fewer but never below zero for an unlike.
pub open spec fn next_like_count(action: LikeAction, likes: i64) -> i64 {
    match action {
        LikeAction::Like => if likes < i64::MAX {
            (likes + 1) as i64
        } else {
            likes
        },
        LikeAction::Unlike => if likes > 0 {
            (likes - 1) as i64
        } else {
            0
        },
    }
}

/// The refusal of a like request, if any: one without the liking user's UUID
/// is refused.
pub fn like_request_error(user_uuid: &str) -> (r: Option<ApiError>)
    ensures
        r == if user_uuid@.len() == 0 {
            Some(ApiError::UserUuidRequired)
        } else {
            None::<ApiError>
        },
{
    if user_uuid.is_empty() {
        Some(ApiError::UserUuidRequired)
    } else {
        None
    }
}

/// What a like request does, given how many like rows of the user the store
/// holds for the post (`None` if that lookup failed): unlike if there are any,
/// like otherwise.
pub fn like_action(like_rows: Option<i64>) -> (r: LikeAction)
    ensures
        r == action_for(like_rows),
{
    match like_rows {
        Some(c) => if c > 0 {
            LikeAction::Unlike
        } else {
            LikeAction::Like
        },
        None => LikeAction::Like,
    }
}

impl LikeAction {
    /// Whether the post is liked by the user afterwards, as the reply says.
    pub fn liked(&self) -> (r: bool)
        ensures
            r == (*self == LikeAction::Like),
    {
        match self {
            LikeAction::Like => true,
            LikeAction::Unlike => false,
        }
    }

    /// The post's like counter after the action.
    pub fn next_likes(&self, likes: i64) -> (r: i64)
        ensures
            r == next_like_count(*self, likes),
    {
        match self {
            LikeAction::Like => if likes < i64::MAX {
                likes + 1
            } else {
                likes
            },
            LikeAction::Unlike => if likes > 0 {
                likes - 1
            } else {
                0
            },
        }
    }
}

/// The like rows the store holds for a user after an action.
pub open spec fn rows_after(action: LikeAction) -> i64 {
    match action {
        LikeAction::Like => 1,
        LikeAction::Unlike => 0,
    }
}

/// A like request answers `liked: true` exactly when the user had not liked the
/// post, and a second request by the same user undoes the first: the user's
/// like and the post's counter are as before.  (A post the user likes counts
/// at least that like.)  The one exception is a first like on a counter that
/// already stands at the top of the `i64` range, which cannot count it.
pub proof fn law_like_toggles(like_rows: i64, likes: i64)
    requires
        0 <= like_rows <= 1,
        0 <= likes,
        like_rows == 1 ==> likes >= 1,
        like_rows == 0 ==> likes < i64::MAX,
    ensures
        (action_for(Some(like_rows)) == LikeAction::Like) == !already_liked(Some(like_rows)),
        ({
            let first = action_for(Some(like_rows));
            let second = action_for(Some(rows_after(first)));
            &&& rows_after(second) == like_rows
            &&& next_like_count(second, next_like_count(first, likes)) == likes
        }),
{
}

/// The like counter never goes below zero.
pub proof fn law_like_count_nonnegative(action: LikeAction, likes: i64)
    requires
        likes >= 0,
    ensures
        next_like_count(action, likes) >= 0,
{
}

/// One like request by `user` on a post, in terms of the users who like the
/// post and its counter: the set of likers and the counter afterwards.
pub open spec fn like_step(likers: Set<Seq<char>>, likes: i64, user: Seq<char>) -> (Set<Seq<char>>, i64) {
    let action = action_for(Some(if likers.contains(user) { 1 } else { 0 }));
    let after = match action {
        LikeAction::Like => likers.insert(user),
        LikeAction::Unlike => likers.remove(user),
    };
    (after, next_like_count(action, likes))
}

/// A post whose counter equals the number of users who like it keeps that
/// equation through any like request; each user likes a post at most once,
/// since the likers form a set.  The one exception is a new like on a counter
/// that already stands at the top of the `i64` range, which cannot count it.
pub proof fn law_like_keeps_count(likers: Set<Seq<char>>, likes: i64, user: Seq<char>)
    requires
        likers.finite(),
        likes == likers.len(),
        !likers.contains(user) ==> likes < i64::MAX,
    ensures
        like_step(likers, likes, user).0.finite(),
        like_step(likers, likes, user).1 == like_step(likers, likes, user).0.len(),
{
    if likers.contains(user) {
        assert(likers.len() > 0) by {
            if likers.len() == 0 {
                likers.lemma_len0_is_empty();
            }
        }
    }
}

} // verus!
