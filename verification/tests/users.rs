use amt_social::users::{register_user, registered_user, RegisterRequest, UserRecord};

fn request(badge: Option<&str>) -> RegisterRequest {
    RegisterRequest {
        uuid: "u-1".to_string(),
        minecraft_username: "Steve".to_string(),
        badge: badge.map(|b| b.to_string()),
    }
}

fn stored() -> UserRecord {
    UserRecord {
        uuid: "u-1".to_string(),
        minecraft_username: "OldName".to_string(),
        badge: "gold".to_string(),
        equipped_cape: Some("cape-7".to_string()),
        joined_at: "2024-01-01T00:00:00+00:00".to_string(),
        last_seen_at: "2024-01-02T00:00:00+00:00".to_string(),
    }
}

#[test]
fn a_new_user_joins_now() {
    let u = registered_user(None, &request(Some("iron")), "T1".to_string());
    assert_eq!(u.uuid, "u-1");
    assert_eq!(u.minecraft_username, "Steve");
    assert_eq!(u.badge, "iron");
    assert_eq!(u.equipped_cape, None);
    assert_eq!(u.joined_at, "T1");
    assert_eq!(u.last_seen_at, "T1");
}

#[test]
fn a_new_user_without_badge_has_the_empty_badge() {
    let u = registered_user(None, &request(None), "T1".to_string());
    assert_eq!(u.badge, "");
}

#[test]
fn registering_again_refreshes_name_and_time_only() {
    let u = registered_user(Some(stored()), &request(None), "T2".to_string());
    assert_eq!(u.minecraft_username, "Steve");
    assert_eq!(u.badge, "gold");
    assert_eq!(u.equipped_cape, Some("cape-7".to_string()));
    assert_eq!(u.joined_at, "2024-01-01T00:00:00+00:00");
    assert_eq!(u.last_seen_at, "T2");
}

#[test]
fn an_empty_badge_keeps_the_old_one() {
    let u = registered_user(Some(stored()), &request(Some("")), "T2".to_string());
    assert_eq!(u.badge, "gold");
}

#[test]
fn a_new_badge_replaces_the_old_one() {
    let u = registered_user(Some(stored()), &request(Some("diamond")), "T2".to_string());
    assert_eq!(u.badge, "diamond");
}

#[test]
fn registering_twice_at_once_changes_nothing() {
    let once = registered_user(Some(stored()), &request(Some("")), "T3".to_string());
    let once_copy = registered_user(Some(stored()), &request(Some("")), "T3".to_string());
    let twice = registered_user(Some(once), &request(Some("")), "T3".to_string());
    assert_eq!(twice.badge, once_copy.badge);
    assert_eq!(twice.joined_at, once_copy.joined_at);
    assert_eq!(twice.last_seen_at, once_copy.last_seen_at);
    assert_eq!(twice.minecraft_username, once_copy.minecraft_username);
    assert_eq!(twice.equipped_cape, once_copy.equipped_cape);
}

#[test]
fn registration_stamps_the_current_utc_time() {
    let u = register_user(None, &request(None));
    assert!(u.last_seen_at.ends_with("+00:00"));
    assert_eq!(u.joined_at, u.last_seen_at);
    assert!(u.last_seen_at.starts_with("20"));
    assert_eq!(&u.last_seen_at[10..11], "T");
}

#[test]
fn the_time_stamp_has_the_rfc3339_form() {
    let u = register_user(None, &request(None));
    let s = u.last_seen_at.as_str();
    assert!([25, 29, 32, 35].contains(&s.len()), "{s}");
    let b = s.as_bytes();
    for (i, c) in b.iter().enumerate().take(19) {
        match i {
            4 | 7 => assert_eq!(*c, b'-'),
            10 => assert_eq!(*c, b'T'),
            13 | 16 => assert_eq!(*c, b':'),
            _ => assert!(c.is_ascii_digit()),
        }
    }
    if s.len() > 25 {
        assert_eq!(b[19], b'.');
        assert!(b[20..s.len() - 6].iter().all(|c| c.is_ascii_digit()));
    }
    assert!(s.ends_with("+00:00"));
}
