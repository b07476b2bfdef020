use std::collections::HashMap;

use serverbot::backup::{
    autobackup_request, autobackup_text, backup_created_form_text, backup_created_text,
    backup_deleted_text, backup_form_name, backup_list_text, backup_request,
    channel_kind_from_str, channel_kind_to_str, deserialize_overwrites, emoji_restore_text,
    initial_role_map, is_category, map_member_roles, parse_backup_kind, plan_category,
    plan_channel, plan_role, serialize_overwrites, server_restore_text, sort_channels,
    sort_roles_by_position, BackupChannel, BackupOverwrite, BackupRequest, BackupRole,
    ChannelKind, ExistingRole, Overwrite, OverwriteTarget, RolePlan,
};

fn role(id: u64, name: &str, position: i64) -> BackupRole {
    BackupRole { id, name: name.to_string(), color: 0, hoist: false, mentionable: false, permissions: 0, position }
}

fn channel(id: u64, name: &str, kind: &str, position: i64) -> BackupChannel {
    BackupChannel {
        id,
        name: name.to_string(),
        kind: kind.to_string(),
        position,
        parent_id: None,
        topic: None,
        nsfw: false,
        bitrate: None,
        user_limit: None,
        slowmode: None,
        overwrites: Vec::new(),
    }
}

#[test]
fn backup_kinds() {
    assert_eq!(parse_backup_kind("Serveur"), Some("server"));
    assert_eq!(parse_backup_kind("SRV"), Some("server"));
    assert_eq!(parse_backup_kind("emojis"), Some("emoji"));
    assert_eq!(parse_backup_kind("roles"), None);
}

#[test]
fn channel_kinds_round_trip() {
    for kind in [ChannelKind::Text, ChannelKind::Voice, ChannelKind::Category, ChannelKind::News, ChannelKind::Stage, ChannelKind::Forum] {
        assert_eq!(channel_kind_from_str(&channel_kind_to_str(kind)), kind);
    }
    assert_eq!(channel_kind_to_str(ChannelKind::Other), "other");
    assert_eq!(channel_kind_from_str("other"), ChannelKind::Text);
    assert_eq!(channel_kind_from_str("thread"), ChannelKind::Text);
}

#[test]
fn overwrites_are_saved_in_order() {
    let src = vec![
        Overwrite { allow: 1, deny: 2, target: OverwriteTarget::Role(10) },
        Overwrite { allow: 3, deny: 4, target: OverwriteTarget::Member(20) },
        Overwrite { allow: 5, deny: 6, target: OverwriteTarget::Other },
    ];
    let saved = serialize_overwrites(&src);
    assert_eq!(saved.len(), 3);
    assert_eq!((saved[0].kind.as_str(), saved[0].target_id, saved[0].allow, saved[0].deny), ("role", 10, 1, 2));
    assert_eq!((saved[1].kind.as_str(), saved[1].target_id), ("member", 20));
    assert_eq!((saved[2].kind.as_str(), saved[2].target_id), ("other", 0));
}

#[test]
fn overwrites_are_restored_through_the_role_map() {
    let saved = vec![
        BackupOverwrite { kind: "role".to_string(), target_id: 10, allow: 1 << 10, deny: 0 },
        BackupOverwrite { kind: "role".to_string(), target_id: 11, allow: 1, deny: 1 },
        BackupOverwrite { kind: "member".to_string(), target_id: 20, allow: 1 << 11, deny: 1 << 63 },
        BackupOverwrite { kind: "other".to_string(), target_id: 0, allow: 0, deny: 0 },
    ];
    let mut map = HashMap::new();
    map.insert(10u64, 100u64);
    let restored = deserialize_overwrites(&saved, &map);
    assert_eq!(restored, vec![
        Overwrite { allow: 1 << 10, deny: 0, target: OverwriteTarget::Role(100) },
        Overwrite { allow: 1 << 11, deny: 0, target: OverwriteTarget::Member(20) },
    ]);
}

#[test]
fn saved_overwrites_come_back_as_they_were() {
    let src = vec![
        Overwrite { allow: 1 << 10, deny: 1 << 50, target: OverwriteTarget::Role(7) },
        Overwrite { allow: 0x0007_7fff_ffff_ffff, deny: 0, target: OverwriteTarget::Member(42) },
    ];
    let mut map = HashMap::new();
    map.insert(7u64, 7u64);
    let restored = deserialize_overwrites(&serialize_overwrites(&src), &map);
    assert_eq!(restored, src);
}

#[test]
fn unknown_permission_bits_are_cleared() {
    let saved = vec![BackupOverwrite {
        kind: "member".to_string(),
        target_id: 5,
        allow: (1 << 47) | (1 << 51) | 1,
        deny: u64::MAX,
    }];
    let restored = deserialize_overwrites(&saved, &HashMap::new());
    assert_eq!(restored, vec![Overwrite {
        allow: 1,
        deny: 0x0007_7fff_ffff_ffff,
        target: OverwriteTarget::Member(5),
    }]);
}

#[test]
fn role_plans() {
    let existing = vec![
        ExistingRole { id: 1, name: "Admin".to_string() },
        ExistingRole { id: 2, name: "Admin".to_string() },
    ];
    assert_eq!(plan_role(&role(9, "@everyone", 0), &existing), RolePlan::Skip);
    assert_eq!(plan_role(&role(9, "Admin", 1), &existing), RolePlan::Reuse(1));
    assert_eq!(plan_role(&role(9, "Mod", 1), &existing), RolePlan::Create);
    let map = initial_role_map(&existing);
    assert_eq!(map.get(&1), Some(&1));
    assert_eq!(map.get(&3), None);
}

#[test]
fn member_roles_are_mapped() {
    let mut map = HashMap::new();
    map.insert(1u64, 10u64);
    map.insert(2u64, 20u64);
    assert_eq!(map_member_roles(&vec![2, 5, 1], &map), vec![20, 10]);
}

#[test]
fn channel_plans() {
    let mut cat = channel(1, "General", "category", 70_000);
    assert!(is_category(&cat));
    let p = plan_category(&cat);
    assert_eq!(p.kind, ChannelKind::Category);
    assert_eq!(p.position, (70_000i64 as u16));
    cat.kind = "voice".to_string();
    cat.parent_id = Some(5);
    cat.bitrate = Some(64_000);
    let mut cats = HashMap::new();
    cats.insert(5u64, 50u64);
    let plan = plan_channel(&cat, &cats, &HashMap::new());
    assert_eq!(plan.kind, ChannelKind::Voice);
    assert_eq!(plan.category, Some(50));
    assert_eq!(plan.bitrate, Some(64_000));
    assert!(plan.overwrites.is_empty());
}

#[test]
fn backup_requests() {
    assert_eq!(backup_request(&[]), BackupRequest::Menu);
    assert_eq!(backup_request(&["LIST", "emoji"]), BackupRequest::List("emoji"));
    assert_eq!(backup_request(&["list"]), BackupRequest::Ignore);
    assert_eq!(backup_request(&["list", "roles"]), BackupRequest::Ignore);
    assert_eq!(backup_request(&["delete", "srv", "weekly"]), BackupRequest::Delete("server", "weekly".to_string()));
    assert_eq!(backup_request(&["load", "serveur", "b1"]), BackupRequest::Load("server", "b1".to_string()));
    assert_eq!(backup_request(&["load", "serveur"]), BackupRequest::Ignore);
    assert_eq!(backup_request(&["Emoji", "mine"]), BackupRequest::Create("emoji", "mine".to_string()));
    assert_eq!(backup_request(&["server"]), BackupRequest::MissingName);
    assert_eq!(backup_request(&["roles", "x"]), BackupRequest::InvalidKind);
}

#[test]
fn autobackup_requests() {
    assert_eq!(autobackup_request(&["serveur", "7"]), Some(("server", 7)));
    assert_eq!(autobackup_request(&["emoji", "-3"]), Some(("emoji", 1)));
    assert_eq!(autobackup_request(&["emoji", "x"]), None);
    assert_eq!(autobackup_request(&["roles", "3"]), None);
    assert_eq!(autobackup_request(&["emoji"]), None);
    assert_eq!(autobackup_text("server", 7), "Auto-backup `server` configurée toutes les 7 jours.");
}

#[test]
fn backup_answers() {
    let rows = vec![("a".to_string(), 100i64), ("b".to_string(), 200i64)];
    assert_eq!(backup_list_text(&rows), "- `a` · <t:100:R>\n- `b` · <t:200:R>");
    assert_eq!(backup_list_text(&Vec::new()), "Aucune backup enregistrée.");
    assert_eq!(backup_deleted_text("x", 1), "Backup `x` supprimée.");
    assert_eq!(backup_deleted_text("x", 0), "Aucune backup `x` trouvée.");
    assert_eq!(backup_created_text("n", "server"), "Backup `n` de type `server` créée.");
    assert_eq!(backup_created_form_text("n", "emoji"), "Backup `n` (emoji) créée.");
    assert_eq!(emoji_restore_text(3), "Load emoji terminé: 3 emojis créés.");
    assert_eq!(server_restore_text(1, 2, 3, false), "Load serveur terminé: 1 rôles, 2 salons, 3 membres synchronisés.");
    assert_eq!(server_restore_text(1, 2, 3, true), "Load serveur terminé: 1 rôles, 2 salons, 3 membres.");
    assert_eq!(backup_form_name(Some("  nom  "), "backup"), "nom");
    assert_eq!(backup_form_name(None, "backup"), "backup");
}

#[test]
fn roles_are_sorted_stably() {
    let roles = vec![role(1, "a", 3), role(2, "b", 1), role(3, "c", 3), role(4, "d", 0)];
    let sorted = sort_roles_by_position(roles);
    let ids: Vec<u64> = sorted.iter().map(|r| r.id).collect();
    assert_eq!(ids, vec![4, 2, 1, 3]);
}

#[test]
fn channels_are_sorted_by_position_then_name() {
    let chans = vec![
        channel(1, "zeta", "text", 2),
        channel(2, "alpha", "text", 2),
        channel(3, "beta", "voice", 1),
        channel(4, "alpha", "voice", 2),
        channel(5, "Zed", "text", 2),
    ];
    let sorted = sort_channels(chans);
    let ids: Vec<u64> = sorted.iter().map(|c| c.id).collect();
    assert_eq!(ids, vec![3, 5, 2, 4, 1]);
}
