//! Verified core of the AMT social server: content parsing (hashtags and
//! mentions), the rules of registration, posting, liking and feed queries.
//! Storage, HTTP and JSON live in the application around this crate.

pub mod text;
pub mod parsing;
pub mod clock;
pub mod error;
pub mod users;
pub mod posts;
pub mod feed;
pub mod likes;
pub mod tag_laws;
pub mod word_laws;
