use serverbot::backup::ChannelKind;
use serverbot::components::adv_component_id;
use serverbot::tools::{autobackup_name, button_request, renewable, ButtonRequest};
use serverbot::tools::{
    adv_action_id, autoreact_form, autoreact_list_text, autoreact_request, autoreactions,
    bringall_target, choose_options, choose_result_text, data_uri_of, duration_from_input,
    duration_input_fits, emoji_data_uri, emoji_url_from_source, end_request, giveaway_description,
    giveaway_end_id, giveaway_title, loading_frame, loading_request, loading_seconds,
    loading_step_seconds, massive_role_applies, members_in_channel, members_in_voice,
    modal_choose_options, parse_adv_action, parse_channel_id, parse_embed_color, pick_option,
    reroll_candidates, reroll_winner, route_adv_component, route_adv_modal, select_reactions,
    sync_scope, sync_targets, AdvAction, AutoreactRequest, ComponentRoute, EndRequest,
    GuildChannelInfo, LoadingRequest, MaintenanceClock, ModalRoute, SyncScope,
};

const ALL_ACTIONS: [AdvAction; 12] = [
    AdvAction::GiveawayOpen,
    AdvAction::GiveawayEnd,
    AdvAction::BackupCreate,
    AdvAction::BackupList,
    AdvAction::BackupLoad,
    AdvAction::BackupDelete,
    AdvAction::AutoreactAdd,
    AdvAction::AutoreactDel,
    AdvAction::AutoreactList,
    AdvAction::Choose,
    AdvAction::Embed,
    AdvAction::Loading,
];

#[test]
fn actions_round_trip() {
    for a in ALL_ACTIONS {
        assert_eq!(parse_adv_action(adv_action_id(a)), Some(a));
    }
    assert_eq!(adv_action_id(AdvAction::Loading), "adv:loading:modal");
    assert_eq!(parse_adv_action("adv:unknown"), None);
}

#[test]
fn menu_buttons_route_to_their_action() {
    for a in ALL_ACTIONS {
        let id = adv_component_id(adv_action_id(a), 42);
        assert_eq!(route_adv_component(&id, 42), ComponentRoute::Open(a));
        assert_eq!(route_adv_component(&id, 43), ComponentRoute::NotOwner);
    }
    assert_eq!(route_adv_component("adv:giveaway:join", 1), ComponentRoute::GiveawayJoin);
    assert_eq!(route_adv_component("ticket:close", 1), ComponentRoute::Unhandled);
    assert_eq!(route_adv_component("adv:nothing:7", 7), ComponentRoute::Unhandled);
}

#[test]
fn forms_route_to_their_action() {
    let id = adv_component_id(adv_action_id(AdvAction::Choose), 9);
    assert_eq!(route_adv_modal(&id, 9, true), ModalRoute::Submit(AdvAction::Choose));
    assert_eq!(route_adv_modal(&id, 8, true), ModalRoute::NotOwner);
    assert_eq!(route_adv_modal(&id, 9, false), ModalRoute::NeedsServer);
    let list = adv_component_id(adv_action_id(AdvAction::AutoreactList), 9);
    assert_eq!(route_adv_modal(&list, 9, true), ModalRoute::Unhandled);
    assert_eq!(route_adv_modal("plain", 9, true), ModalRoute::Unhandled);
}

#[test]
fn typed_durations() {
    assert_eq!(duration_from_input("10s"), Some(10));
    assert_eq!(duration_from_input(" 5 Min "), Some(300));
    assert_eq!(duration_from_input("2h"), Some(7200));
    assert_eq!(duration_from_input("1j"), Some(86_400));
    assert_eq!(duration_from_input("30"), Some(30));
    assert_eq!(duration_from_input("0"), Some(1));
    assert_eq!(duration_from_input("1w"), None);
    assert_eq!(duration_from_input(""), None);
    assert_eq!(duration_from_input("m5"), None);
    assert_eq!(duration_from_input("abc"), None);
    assert!(duration_input_fits("10s"));
    assert!(!duration_input_fits("99999999999999999j"));
}

#[test]
fn loading_animation() {
    assert_eq!(loading_seconds("20s"), Some(20));
    assert_eq!(loading_seconds("1h"), Some(120));
    assert_eq!(loading_seconds("0"), Some(1));
    assert_eq!(loading_seconds("nope"), None);
    assert_eq!(loading_seconds("99999999999999999j"), None);
    assert_eq!(loading_step_seconds(120), 12);
    assert_eq!(loading_step_seconds(5), 1);
    assert_eq!(loading_frame("Chargement", 0), "Chargement [----------] 0%");
    assert_eq!(loading_frame("x", 3), "x [###-------] 30%");
    assert_eq!(loading_frame("x", 10), "x [##########] 100%");
    assert_eq!(loading_request(&["10s"]), LoadingRequest::Menu);
    assert_eq!(loading_request(&["30s", "Mise", "à", "jour"]), LoadingRequest::Run(30, "Mise à jour".to_string()));
    assert_eq!(loading_request(&["zz", "x"]), LoadingRequest::Ignore);
}

#[test]
fn choose_options_and_pick() {
    assert_eq!(choose_options(&["pizza", "|", "sushi", "|", " "]), vec!["pizza", "sushi"]);
    assert_eq!(choose_options(&["a|b", "c"]), vec!["a", "b c"]);
    assert_eq!(choose_options(&["rouge", "vert"]), vec!["rouge", "vert"]);
    assert_eq!(modal_choose_options(" x | y ||"), vec!["x", "y"]);
    let opts = vec!["a".to_string(), "b".to_string()];
    let pick = pick_option(&opts).unwrap();
    assert!(opts.contains(&pick));
    assert_eq!(pick_option(&vec!["only".to_string()]), None);
    assert_eq!(choose_result_text("b"), "Résultat: **b**");
}

#[test]
fn reroll_among_mentions() {
    assert_eq!(reroll_candidates(&vec![5, 3, 5, 1, 3]), vec![1, 3, 5]);
    assert_eq!(reroll_candidates(&Vec::new()), Vec::<u64>::new());
    assert_eq!(reroll_winner(&Vec::new()), None);
    let w = reroll_winner(&vec![8, 9]).unwrap();
    assert!(w == 8 || w == 9);
}

#[test]
fn emoji_sources() {
    assert_eq!(emoji_url_from_source("https://x/y.png", Some("att")), "https://x/y.png");
    assert_eq!(emoji_url_from_source("<:smile:123>", None), "https://cdn.discordapp.com/emojis/123.png");
    assert_eq!(emoji_url_from_source("<a:dance:456>", None), "https://cdn.discordapp.com/emojis/456.gif");
    assert_eq!(emoji_url_from_source("<:bad>", Some("file")), "file");
    assert_eq!(emoji_url_from_source("smile", None), "");
}

#[test]
fn emoji_data_uris() {
    assert_eq!(data_uri_of("QUJD"), "data:image/png;base64,QUJD");
    assert_eq!(emoji_data_uri(&b"ABC".to_vec()), "data:image/png;base64,QUJD");
    assert_eq!(emoji_data_uri(&b"AB".to_vec()), "data:image/png;base64,QUI=");
    assert_eq!(emoji_data_uri(&b"M".to_vec()), "data:image/png;base64,TQ==");
    assert_eq!(emoji_data_uri(&vec![0xfb, 0xff, 0xbf]), "data:image/png;base64,+/+/");
    assert_eq!(emoji_data_uri(&b"Many".to_vec()), "data:image/png;base64,TWFueQ==");
}

#[test]
fn embed_colors() {
    assert_eq!(parse_embed_color("#FF66CC"), Some(0xFF66CC));
    assert_eq!(parse_embed_color(" 0x00ff00 "), Some(0x00FF00));
    assert_eq!(parse_embed_color("+1a"), Some(0x1A));
    assert_eq!(parse_embed_color("##0x0xff"), Some(0xFF));
    assert_eq!(parse_embed_color(""), None);
    assert_eq!(parse_embed_color("-1"), None);
    assert_eq!(parse_embed_color("123456789"), None);
    assert_eq!(parse_embed_color("zz"), None);
}

#[test]
fn giveaways() {
    assert_eq!(giveaway_title(None), "🎉 Giveaway");
    assert_eq!(giveaway_title(Some("Nitro")), "🎉 Nitro");
    assert_eq!(
        giveaway_description(None, Some("2")),
        "Clique sur le bouton pour participer.\nDurée: **10m**\nGagnants: **2**"
    );
    assert_eq!(giveaway_end_id(Some(" 123 ")), Some(123));
    assert_eq!(giveaway_end_id(Some("x")), None);
    assert_eq!(giveaway_end_id(None), None);
    assert_eq!(end_request(&[]), EndRequest::Menu);
    assert_eq!(end_request(&["GIVEAWAY"]), EndRequest::Usage);
    assert_eq!(end_request(&["giveaway", "77"]), EndRequest::End(77));
    assert_eq!(end_request(&["giveaway", "x"]), EndRequest::InvalidId);
    assert_eq!(end_request(&["poll", "1"]), EndRequest::Ignore);
}

#[test]
fn channels_and_voice() {
    assert_eq!(parse_channel_id("<#55>"), Some(55));
    assert_eq!(parse_channel_id(" 66 "), Some(66));
    assert_eq!(parse_channel_id("general"), None);
    let states = vec![(1u64, Some(10u64)), (2, None), (3, Some(11)), (4, Some(10))];
    assert_eq!(members_in_channel(&states, 10), vec![1, 4]);
    assert_eq!(members_in_voice(&states), vec![1, 3, 4]);
    assert_eq!(bringall_target(Some("<#9>"), Some(10)), Some(9));
    assert_eq!(bringall_target(None, Some(10)), Some(10));
    assert!(massive_role_applies(None, &vec![]));
    assert!(massive_role_applies(Some(3), &vec![1, 3]));
    assert!(!massive_role_applies(Some(2), &vec![1, 3]));
}

#[test]
fn sync_scopes_and_targets() {
    assert_eq!(sync_scope("ALL"), SyncScope::All);
    assert_eq!(sync_scope("<#5>"), SyncScope::Channel(5));
    assert_eq!(sync_scope("x"), SyncScope::Nothing);
    let chans = vec![
        GuildChannelInfo { id: 1, is_category: true, parent: None },
        GuildChannelInfo { id: 2, is_category: false, parent: Some(1) },
        GuildChannelInfo { id: 3, is_category: false, parent: Some(1) },
        GuildChannelInfo { id: 4, is_category: false, parent: Some(99) },
        GuildChannelInfo { id: 5, is_category: false, parent: None },
    ];
    assert_eq!(sync_targets(SyncScope::All, &chans), vec![(2, 1), (3, 1)]);
    assert_eq!(sync_targets(SyncScope::Channel(1), &chans), vec![(2, 1), (3, 1)]);
    assert_eq!(sync_targets(SyncScope::Channel(3), &chans), vec![(3, 1)]);
    assert_eq!(sync_targets(SyncScope::Channel(4), &chans), Vec::<(u64, u64)>::new());
    assert_eq!(sync_targets(SyncScope::Nothing, &chans), Vec::<(u64, u64)>::new());
}

#[test]
fn maintenance_runs_at_most_every_thirty_seconds() {
    let mut clock = MaintenanceClock::new();
    assert!(clock.tick(1_000));
    assert!(!clock.tick(20_000));
    assert!(!clock.tick(30_999));
    assert!(clock.tick(31_000));
    assert!(!clock.tick(5_000));
}

#[test]
fn autoreact_commands() {
    assert_eq!(autoreact_request(&[]), AutoreactRequest::Menu);
    assert_eq!(autoreact_request(&["LIST"]), AutoreactRequest::List);
    assert_eq!(autoreact_request(&["add", "<#5>"]), AutoreactRequest::Ignore);
    assert_eq!(autoreact_request(&["add", "x", "👍"]), AutoreactRequest::Ignore);
    assert_eq!(autoreact_request(&["Add", "<#5>", "👍"]), AutoreactRequest::Add(5, "👍".to_string()));
    assert_eq!(autoreact_request(&["del", "5", "🔥"]), AutoreactRequest::Del(5, "🔥".to_string()));
    assert_eq!(autoreact_request(&["swap", "5", "🔥"]), AutoreactRequest::Other);
    assert_eq!(autoreact_form(Some(" <#7> "), Some(" 👍 ")), Some((7, "👍".to_string())));
    assert_eq!(autoreact_form(None, Some("x")), None);
    assert_eq!(autoreact_list_text(&vec![(5, "👍".to_string()), (6, "🔥".to_string())]), "- <#5> -> 👍\n- <#6> -> 🔥");
    assert_eq!(autoreact_list_text(&Vec::new()), "Aucun autoreact configuré.");
}

#[test]
fn reactions_to_apply() {
    let emojis = vec!["👍".to_string(), "".to_string(), "<:ok:12>".to_string(), "<broken".to_string()];
    assert_eq!(autoreactions(true, &emojis), Vec::<String>::new());
    assert_eq!(autoreactions(false, &emojis), vec!["👍".to_string(), "<:ok:12>".to_string()]);
    assert_eq!(select_reactions(&emojis, &vec![false, true, false, true]), vec!["".to_string(), "<broken".to_string()]);
}

#[test]
fn custom_emoji_reactions_need_a_non_zero_id() {
    let emojis: Vec<String> = [
        "<a:party:77>", "<:zero:0>", "<:noid:>", "<:x:+5>", "<:name>", "<:y:12x>", "<<:z:9>>",
    ]
    .iter()
    .map(|s| s.to_string())
    .collect();
    assert_eq!(
        autoreactions(false, &emojis),
        vec!["<a:party:77>".to_string(), "<:x:+5>".to_string(), "<<:z:9>>".to_string()]
    );
}

#[test]
fn buttons_and_renewals() {
    assert_eq!(button_request(&["ADD", "https://x.y"]), ButtonRequest::Add("https://x.y".to_string()));
    assert_eq!(button_request(&["del", "x"]), ButtonRequest::Del);
    assert_eq!(button_request(&["add"]), ButtonRequest::Ignore);
    assert_eq!(button_request(&["edit", "x"]), ButtonRequest::Ignore);
    assert!(renewable(ChannelKind::Text));
    assert!(renewable(ChannelKind::News));
    assert!(!renewable(ChannelKind::Voice));
    assert_eq!(autobackup_name("server", "20240102_030405"), "auto_server_20240102_030405");
}
