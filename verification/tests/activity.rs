use serverbot::activity::{parse_status, ActivityRotation, PresenceStatus, RotatingActivityKind};

#[test]
fn kinds_from_commands() {
    assert_eq!(RotatingActivityKind::from_command("+playto"), Some(RotatingActivityKind::Playing));
    assert_eq!(RotatingActivityKind::from_command("+listen"), Some(RotatingActivityKind::Listening));
    assert_eq!(RotatingActivityKind::from_command("+watch"), Some(RotatingActivityKind::Watching));
    assert_eq!(RotatingActivityKind::from_command("+compet"), Some(RotatingActivityKind::Competing));
    assert_eq!(RotatingActivityKind::from_command("+stream"), Some(RotatingActivityKind::Streaming));
    assert_eq!(RotatingActivityKind::from_command("+PLAYTO"), None);
    assert_eq!(RotatingActivityKind::from_command("playto"), None);
}

#[test]
fn kinds_round_trip_through_storage() {
    for kind in [
        RotatingActivityKind::Playing,
        RotatingActivityKind::Listening,
        RotatingActivityKind::Watching,
        RotatingActivityKind::Competing,
        RotatingActivityKind::Streaming,
    ] {
        assert_eq!(RotatingActivityKind::from_db(kind.as_db()), Some(kind));
    }
    assert_eq!(RotatingActivityKind::Watching.as_db(), "watching");
    assert_eq!(RotatingActivityKind::from_db("Watching"), None);
    assert_eq!(RotatingActivityKind::from_db(""), None);
}

#[test]
fn statuses() {
    assert_eq!(parse_status("idle"), PresenceStatus::Idle);
    assert_eq!(parse_status("dnd"), PresenceStatus::DoNotDisturb);
    assert_eq!(parse_status("invisible"), PresenceStatus::Invisible);
    assert_eq!(parse_status("online"), PresenceStatus::Online);
    assert_eq!(parse_status("IDLE"), PresenceStatus::Online);
}

#[test]
fn activities_carry_the_message() {
    let a = RotatingActivityKind::Listening.to_activity("music");
    assert_eq!(a.kind, RotatingActivityKind::Listening);
    assert_eq!(a.name, "music");
    assert_eq!(a.url, None);
    let s = RotatingActivityKind::Streaming.to_activity("live");
    assert_eq!(s.url.as_deref(), Some("https://twitch.tv/discord"));
}

#[test]
fn rotation_cycles_through_messages() {
    assert!(ActivityRotation::new(RotatingActivityKind::Playing, Vec::new()).is_none());
    let mut rot = ActivityRotation::new(
        RotatingActivityKind::Watching,
        vec!["a".to_string(), "b".to_string(), "c".to_string()],
    )
    .unwrap();
    let shown: Vec<String> = (0..7).map(|_| rot.next_activity().name).collect();
    assert_eq!(shown, vec!["a", "b", "c", "a", "b", "c", "a"]);
}
