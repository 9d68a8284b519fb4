use amt_social::error::ApiError;
use amt_social::likes::{like_action, like_request_error, LikeAction};

#[test]
fn a_like_needs_the_user() {
    assert_eq!(like_request_error(""), Some(ApiError::UserUuidRequired));
    assert_eq!(ApiError::UserUuidRequired.status(), 400);
    assert_eq!(ApiError::UserUuidRequired.message(), "user_uuid required");
    assert_eq!(like_request_error("u-1"), None);
}

#[test]
fn a_first_request_likes_and_a_second_unlikes() {
    assert_eq!(like_action(Some(0)), LikeAction::Like);
    assert_eq!(like_action(Some(1)), LikeAction::Unlike);
    assert_eq!(like_action(None), LikeAction::Like);
    assert!(LikeAction::Like.liked());
    assert!(!LikeAction::Unlike.liked());
}

#[test]
fn the_counter_follows_the_likes() {
    assert_eq!(LikeAction::Like.next_likes(4), 5);
    assert_eq!(LikeAction::Unlike.next_likes(5), 4);
    assert_eq!(LikeAction::Unlike.next_likes(0), 0);
    assert_eq!(LikeAction::Unlike.next_likes(-3), 0);
    assert_eq!(LikeAction::Like.next_likes(i64::MAX), i64::MAX);
}

#[test]
fn liking_twice_restores_the_post() {
    let first = like_action(Some(0));
    let likes = first.next_likes(9);
    let second = like_action(Some(if first.liked() { 1 } else { 0 }));
    assert_eq!(second.next_likes(likes), 9);
    assert!(!second.liked());
}

#[test]
fn the_counter_matches_the_likers_through_requests() {
    let mut likers: Vec<&str> = Vec::new();
    let mut likes: i64 = 0;
    for user in ["a", "b", "a", "c", "b", "b"] {
        let rows = if likers.contains(&user) { 1 } else { 0 };
        let action = like_action(Some(rows));
        match action {
            LikeAction::Like => likers.push(user),
            LikeAction::Unlike => likers.retain(|u| *u != user),
        }
        likes = action.next_likes(likes);
        assert_eq!(likes, likers.len() as i64);
    }
    assert_eq!(likers, vec!["c", "b"]);
}

#[test]
fn unliking_a_full_counter_and_liking_again_restores_it() {
    let first = like_action(Some(1));
    let likes = first.next_likes(i64::MAX);
    assert_eq!(likes, i64::MAX - 1);
    let second = like_action(Some(0));
    assert_eq!(second.next_likes(likes), i64::MAX);
}
