use serverbot::moderation::{
    added_by_text, autopublish_list_text, ban_results_text, boost_embed_update, can_remove_owner,
    channel_arg_or, log_enabled_text, log_switch, owner_lines, raidlog_switch, reason_from_args,
    sanctions_list_text, unblacklist_text, unowner_text, BoostEmbedUpdate, LogSwitch, SanctionRow,
};

#[test]
fn reasons() {
    assert_eq!(reason_from_args(&["<@1>", "spam", "répété"], "Aucune raison"), "spam répété");
    assert_eq!(reason_from_args(&["<@1>"], "Aucune raison"), "Aucune raison");
}

#[test]
fn sanction_lists() {
    let rows = vec![
        SanctionRow { id: 3, kind: "tempmute".to_string(), reason: "flood".to_string(), created_at: 100, expires_at: Some(200), active: true },
        SanctionRow { id: 2, kind: "warn".to_string(), reason: "spam".to_string(), created_at: 50, expires_at: None, active: false },
    ];
    assert_eq!(
        sanctions_list_text(&rows),
        "`#3` `tempmute` (active) · <t:100:R> · jusqu'à <t:200:R> · flood\n`#2` `warn` (inactive) · <t:50:R> · spam"
    );
    assert_eq!(sanctions_list_text(&Vec::new()), "Aucune sanction.");
}

#[test]
fn owners() {
    assert_eq!(owner_lines(Some(1), &vec![2, 3]), vec!["<@1> (owner application)", "<@2>", "<@3>"]);
    assert_eq!(owner_lines(None, &vec![2]), vec!["<@2>"]);
    assert!(!can_remove_owner(1, Some(1)));
    assert!(can_remove_owner(2, Some(1)));
    assert!(can_remove_owner(2, None));
    assert_eq!(unowner_text(5, 1), "<@5> n'est plus owner.");
    assert_eq!(unowner_text(5, 0), "<@5> n'était pas owner.");
    assert_eq!(unblacklist_text(5, 2), "<@5> retiré de la blacklist.");
    assert_eq!(unblacklist_text(5, 0), "<@5> n'était pas blacklisté.");
    assert_eq!(ban_results_text(3, 1), "3 réussis · 1 échecs");
    assert_eq!(added_by_text(Some(8)), "<@8>");
    assert_eq!(added_by_text(None), "Inconnu");
}

#[test]
fn log_switches() {
    assert_eq!(log_switch(&[]), LogSwitch::Usage);
    assert_eq!(log_switch(&["ON", "<#1>"]), LogSwitch::On);
    assert_eq!(log_switch(&["off"]), LogSwitch::Off);
    assert_eq!(log_switch(&["maybe"]), LogSwitch::Usage);
    assert_eq!(raidlog_switch(&["OFF"]), LogSwitch::Off);
    assert_eq!(raidlog_switch(&[]), LogSwitch::On);
    assert_eq!(raidlog_switch(&["<#3>"]), LogSwitch::On);
    assert_eq!(log_enabled_text(Some(3)), "Active dans <#3>.");
    assert_eq!(log_enabled_text(None), "Active dans ce salon.");
}

#[test]
fn boost_embed_updates() {
    assert_eq!(boost_embed_update(&["title"]), BoostEmbedUpdate::Usage);
    assert_eq!(boost_embed_update(&["Title", "Merci", "!"]), BoostEmbedUpdate::Title("Merci !".to_string()));
    assert_eq!(boost_embed_update(&["description", "x"]), BoostEmbedUpdate::Description("x".to_string()));
    assert_eq!(boost_embed_update(&["color", "#FF66CC"]), BoostEmbedUpdate::Color(Some(0xFF66CC)));
    assert_eq!(boost_embed_update(&["color", "#FFFFFFFF"]), BoostEmbedUpdate::Color(Some(-1)));
    assert_eq!(boost_embed_update(&["color", "rose"]), BoostEmbedUpdate::Color(None));
    assert_eq!(boost_embed_update(&["image", "x"]), BoostEmbedUpdate::Other);
}

#[test]
fn autopublish_channels() {
    assert_eq!(channel_arg_or(&["<#4>"], 9), 4);
    assert_eq!(channel_arg_or(&["x"], 9), 9);
    assert_eq!(channel_arg_or(&[], 9), 9);
    assert_eq!(autopublish_list_text(&vec![1, 2]), "<#1>\n<#2>");
    assert_eq!(autopublish_list_text(&Vec::new()), "Aucun salon d'annonces configuré.");
}
