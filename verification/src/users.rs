//! User profiles and what a registration does to them.
//!
//! A profile is locked to the Minecraft identity: registering again refreshes
//! the username and the last-seen time, replaces the badge only with a
//! non-empty one, and leaves the join time and the equipped cape alone.

use vstd::prelude::*;
use crate::clock::{is_rfc3339_utc, now_rfc3339};

verus! {

/// The characters of an optional string.
pub open spec fn opt_chars(o: Option<String>) -> Option<Seq<char>> {
    match o {
        None => None,
        Some(s) => Some(s@),
    }
}

/// A stored user profile.
pub struct UserRecord {
    pub uuid: String,
    pub minecraft_username: String,
    pub badge: String,
    pub equipped_cape: Option<String>,
    pub joined_at: String,
    pub last_seen_at: String,
}

/// The contents of a user profile.
#[verifier::ext_equal]
pub struct UserView {
    pub uuid: Seq<char>,
    pub minecraft_username: Seq<char>,
    pub badge: Seq<char>,
    pub equipped_cape: Option<Seq<char>>,
    pub joined_at: Seq<char>,
    pub last_seen_at: Seq<char>,
}

impl View for UserRecord {
    type V = UserView;

    open spec fn view(&self) -> UserView {
        UserView {
            uuid: self.uuid@,
            minecraft_username: self.minecraft_username@,
            badge: self.badge@,
            equipped_cape: opt_chars(self.equipped_cape),
            joined_at: self.joined_at@,
            last_seen_at: self.last_seen_at@,
        }
    }
}

/// The contents of an optional profile.
pub open spec fn opt_user(u: Option<UserRecord>) -> Option<UserView> {
    match u {
        None => None,
        Some(u) => Some(u@),
    }
}

/// A registration: the user's UUID, Minecraft username and, optionally, badge.
pub struct RegisterRequest {
    pub uuid: String,
    pub minecraft_username: String,
    pub badge: Option<String>,
}

/// The contents of a registration.
pub struct RegisterView {
    pub uuid: Seq<char>,
    pub minecraft_username: Seq<char>,
    pub badge: Option<Seq<char>>,
}

impl View for RegisterRequest {
    type V = RegisterView;

    open spec fn view(&self) -> RegisterView {
        RegisterView {
            uuid: self.uuid@,
            minecraft_username: self.minecraft_username@,
            badge: opt_chars(self.badge),
        }
    }
}

/// The badge a registration asks for; none asked for is the empty badge.
pub open spec fn requested_badge(req: RegisterView) -> Seq<char> {
    match req.badge {
        Some(b) => b,
        None => Seq::empty(),
    }
}

/// The profile stored after registering `req` at time `now`, given the profile
/// stored under `req.uuid` before, if any.
pub open spec fn registration(existing: Option<UserView>, req: RegisterView, now: Seq<char>) -> UserView {
    let badge = requested_badge(req);
    match existing {
        None => UserView {
            uuid: req.uuid,
            minecraft_username: req.minecraft_username,
            badge: badge,
            equipped_cape: None,
            joined_at: now,
            last_seen_at: now,
        },
        Some(u) => UserView {
            uuid: req.uuid,
            minecraft_username: req.minecraft_username,
            badge: if badge.len() == 0 { u.badge } else { badge },
            equipped_cape: u.equipped_cape,
            joined_at: u.joined_at,
            last_seen_at: now,
        },
    }
}

/// A copy of an optional string.
pub(crate) fn clone_opt(o: &Option<String>) -> (r: Option<String>)
    ensures
        opt_chars(r) == opt_chars(*o),
{
    match o {
        None => None,
        Some(s) => Some(s.clone()),
    }
}

/// The profile to store after registering `req` at time `now`, given the
/// profile stored under `req.uuid` before, if any.
pub fn registered_user(existing: Option<UserRecord>, req: &RegisterRequest, now: String) -> (r: UserRecord)
    ensures
        r@ == registration(opt_user(existing), req@, now@),
{
    let badge = match &req.badge {
        Some(b) => b.clone(),
        None => String::new(),
    };
    match existing {
        None => UserRecord {
            uuid: req.uuid.clone(),
            minecraft_username: req.minecraft_username.clone(),
            badge: badge,
            equipped_cape: None,
            joined_at: now.clone(),
            last_seen_at: now,
        },
        Some(u) => {
            let kept_badge = if badge.as_str().is_empty() { u.badge } else { badge };
            UserRecord {
                uuid: req.uuid.clone(),
                minecraft_username: req.minecraft_username.clone(),
                badge: kept_badge,
                equipped_cape: clone_opt(&u.equipped_cape),
                joined_at: u.joined_at,
                last_seen_at: now,
            }
        },
    }
}

/// Registers `req` now: the profile to store, given the profile stored under
/// `req.uuid` before, if any.  The time stamp is read from the clock.
pub fn register_user(existing: Option<UserRecord>, req: &RegisterRequest) -> (r: UserRecord)
    ensures
        r@ == registration(opt_user(existing), req@, r@.last_seen_at),
        is_rfc3339_utc(r@.last_seen_at),
{
    let now = now_rfc3339();
    registered_user(existing, req, now)
}

/// Registering again with the same request at the same time changes nothing.
pub proof fn law_registration_idempotent(existing: Option<UserView>, req: RegisterView, now: Seq<char>)
    ensures
        registration(Some(registration(existing, req, now)), req, now) == registration(existing, req, now),
{
    assert(registration(Some(registration(existing, req, now)), req, now) =~= registration(existing, req, now));
}

/// Registering an existing user keeps the join time and the equipped cape,
/// and keeps the badge unless a non-empty one is asked for.
pub proof fn law_registration_keeps_profile(u: UserView, req: RegisterView, now: Seq<char>)
    ensures
        registration(Some(u), req, now).joined_at == u.joined_at,
        registration(Some(u), req, now).equipped_cape == u.equipped_cape,
        requested_badge(req).len() == 0 ==> registration(Some(u), req, now).badge == u.badge,
        requested_badge(req).len() > 0 ==> registration(Some(u), req, now).badge == requested_badge(req),
{
}

/// Every registration, of a new or an existing user, with or without a badge,
/// stores the request's UUID and Minecraft username and the time of the
/// registration as last seen.
pub proof fn law_registration_refreshes_identity(existing: Option<UserView>, req: RegisterView, now: Seq<char>)
    ensures
        registration(existing, req, now).uuid == req.uuid,
        registration(existing, req, now).minecraft_username == req.minecraft_username,
        registration(existing, req, now).last_seen_at == now,
{
}

/// A new user joins with no cape, and joins when last seen.
pub proof fn law_registration_new_user(req: RegisterView, now: Seq<char>)
    ensures
        registration(None, req, now).equipped_cape is None,
        registration(None, req, now).joined_at == now,
        registration(None, req, now).last_seen_at == now,
        registration(None, req, now).badge == requested_badge(req),
{
}

} // verus!
