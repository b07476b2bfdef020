use serverbot::automod::{
    apply_channel_override, automod_verdict, contains_any_link, contains_invite_link,
    format_duration, member_profile, mute_seconds, parse_duration_to_seconds, parse_on_off,
    parse_profile, parse_rate_limit, parse_sanction, parse_trigger, public_command_allowed,
    public_command_notice, rule_outcome, rule_sanction, sanction_record_kind,
    select_punish_rule, triggered_recently, trigger_name, violation_reason, violation_report,
    violation_strikes, AutomodTrigger, AutomodVerdict, ModerationSettings, RuleCheck,
    RuleSanction, SpamWindow,
};
use serverbot::automod::{automod_step, SpamTracker};

fn settings() -> ModerationSettings {
    ModerationSettings {
        antispam_enabled: true,
        antispam_limit: 5,
        antispam_window_seconds: 10,
        antilink_enabled: true,
        antilink_mode: "invites".to_string(),
        antimassmention_enabled: true,
        antimassmention_limit: 3,
        badwords_enabled: true,
        use_timeout: true,
        public_commands_enabled: true,
    }
}

#[test]
fn on_off_words() {
    assert_eq!(parse_on_off(" ON "), Some(true));
    assert_eq!(parse_on_off("Enabled"), Some(true));
    assert_eq!(parse_on_off("1"), Some(true));
    assert_eq!(parse_on_off("disable"), Some(false));
    assert_eq!(parse_on_off("0"), Some(false));
    assert_eq!(parse_on_off("maybe"), None);
}

#[test]
fn durations_in_seconds() {
    assert_eq!(parse_duration_to_seconds("10m"), Some(600));
    assert_eq!(parse_duration_to_seconds(" 2 H "), Some(7200));
    assert_eq!(parse_duration_to_seconds("1w"), Some(604_800));
    assert_eq!(parse_duration_to_seconds("3 jours"), Some(259_200));
    assert_eq!(parse_duration_to_seconds("45"), Some(45));
    assert_eq!(parse_duration_to_seconds("0"), None);
    assert_eq!(parse_duration_to_seconds(""), None);
    assert_eq!(parse_duration_to_seconds("abc"), None);
    assert_eq!(parse_duration_to_seconds("1m5"), None);
    assert_eq!(parse_duration_to_seconds("5 years"), None);
}

#[test]
fn durations_written_out() {
    assert_eq!(format_duration(0), "1s");
    assert_eq!(format_duration(60), "1m");
    assert_eq!(format_duration(3661), "1h 1m 1s");
    assert_eq!(format_duration(86_400), "1j");
    assert_eq!(format_duration(90_061), "1j 1h 1m 1s");
}

#[test]
fn read_duration_is_written_back() {
    let secs = parse_duration_to_seconds("90m").unwrap();
    assert_eq!(format_duration(secs), "1h 30m");
}

#[test]
fn rate_limits() {
    assert_eq!(parse_rate_limit("5/10s"), Some((5, 10)));
    assert_eq!(parse_rate_limit(" 0 / 1m"), Some((1, 60)));
    assert_eq!(parse_rate_limit("5"), None);
    assert_eq!(parse_rate_limit("x/10s"), None);
    assert_eq!(parse_rate_limit("3/zz"), None);
}

#[test]
fn keyword_parsers() {
    assert_eq!(parse_trigger("AntiSpam"), Some("spam"));
    assert_eq!(parse_trigger("mentions"), Some("massmention"));
    assert_eq!(parse_trigger("motinterdit"), Some("badword"));
    assert_eq!(parse_trigger("flood"), None);
    assert_eq!(parse_profile(Some(" Ancien ")), Some("old"));
    assert_eq!(parse_profile(Some("new")), Some("new"));
    assert_eq!(parse_profile(None), None);
    assert_eq!(parse_sanction("timeout"), Some("mute"));
    assert_eq!(parse_sanction("AVERT"), Some("warn"));
    assert_eq!(parse_sanction("jail"), None);
}

#[test]
fn channel_overrides() {
    assert!(!apply_channel_override(true, Some("ALLOW")));
    assert!(apply_channel_override(false, Some("deny")));
    assert!(apply_channel_override(true, Some("other")));
    assert!(!apply_channel_override(false, None));
}

#[test]
fn link_detection() {
    assert!(contains_invite_link("join DISCORD.GG/abc"));
    assert!(contains_invite_link("discordapp.com/invite/x"));
    assert!(!contains_invite_link("https://example.com"));
    assert!(contains_any_link("see www.site.fr"));
    assert!(contains_any_link("HTTPS://x"));
    assert!(!contains_any_link("no link here"));
}

#[test]
fn spam_window_counts_recent_messages() {
    let second = 1_000_000_000u64;
    let mut w = SpamWindow::new();
    assert!(!w.record(0, 2, 10));
    assert!(!w.record(second, 2, 10));
    assert!(w.record(2 * second, 2, 10));
    // Twenty seconds later the old messages have left the window.
    assert!(!w.record(22 * second, 2, 10));
}

#[test]
fn spam_window_counts_the_calls_within_the_window_of_the_latest() {
    let second: u64 = 1_000_000_000;
    let mut fresh = SpamWindow::new();
    // The first call on a new window never hits, whatever the limit.
    assert!(!fresh.record(5 * second, 0, 1));
    let times = [0, second, 2 * second, 3 * second, 8 * second, 9 * second];
    let mut w = SpamWindow::new();
    let mut hits = Vec::new();
    for t in times {
        hits.push(w.record(t, 2, 5));
    }
    // Calls within 5 s of each call, itself included: 1, 2, 3, 4, 2, 2.
    assert_eq!(hits, vec![false, false, true, true, false, false]);
}

#[test]
fn a_printed_duration_reads_back_when_it_has_one_part() {
    for s in [-5i64, 0, 1, 59, 60, 3600, 7200, 86_400, 3 * 86_400] {
        let text = format_duration(s);
        assert!(!text.contains(' '), "{}", text);
        assert_eq!(parse_duration_to_seconds(&text), Some(s.max(1)), "{}", text);
    }
    for s in [61i64, 3661, 90_000, 86_401] {
        let text = format_duration(s);
        assert!(text.contains(' '), "{}", text);
        assert_eq!(parse_duration_to_seconds(&text), None, "{}", text);
    }
}

#[test]
fn a_duration_ignores_case_and_spaces() {
    for x in ["10m", "2 heures", "3Jours", " 45 s", "1m5", "abc", "7 W"] {
        let p = parse_duration_to_seconds(x);
        assert_eq!(parse_duration_to_seconds(&x.to_ascii_uppercase()), p, "{}", x);
        let squeezed: String = x.chars().filter(|c| !c.is_whitespace()).collect();
        assert_eq!(parse_duration_to_seconds(&squeezed), p, "{}", x);
        assert_eq!(parse_duration_to_seconds(&format!(" {}\t", x)), p, "{}", x);
    }
}

#[test]
fn spam_windows_of_other_members_never_interfere() {
    let second: u64 = 1_000_000_000;
    let a = (1, 2, 3);
    let b = (1, 2, 4);
    let mut alone = SpamTracker::new();
    let mut mixed = SpamTracker::new();
    let mut alone_hits = Vec::new();
    let mut mixed_hits = Vec::new();
    for k in 0..4u64 {
        alone_hits.push(alone.record(a, k * second, 2, 10));
        assert!(!mixed.record(b, k * second, 5, 10));
        mixed_hits.push(mixed.record(a, k * second, 2, 10));
    }
    assert_eq!(alone_hits, vec![false, false, true, true]);
    assert_eq!(mixed_hits, alone_hits);
    assert_eq!(mixed.latest(), 3 * second);
}

#[test]
fn a_message_stopped_by_another_check_is_not_counted_as_spam() {
    let mut s = settings();
    s.antispam_limit = 1;
    let words = vec!["interdit".to_string()];
    let key = (1, 2, 3);
    let mut t = SpamTracker::new();
    assert_eq!(automod_step(&mut t, key, 1, &s, None, None, "c'est interdit", &words, 0), Some(AutomodTrigger::Badword));
    assert_eq!(automod_step(&mut t, key, 2, &s, None, None, "salut", &words, 0), None);
    assert_eq!(automod_step(&mut t, key, 3, &s, None, None, "encore", &words, 0), Some(AutomodTrigger::Spam));
    // With spam allowed in the channel, nothing is recorded.
    let mut u = SpamTracker::new();
    assert_eq!(automod_step(&mut u, key, 1, &s, Some("allow"), None, "un", &words, 0), None);
    assert_eq!(automod_step(&mut u, key, 2, &s, Some("allow"), None, "deux", &words, 0), None);
    assert_eq!(automod_step(&mut u, key, 3, &s, None, None, "trois", &words, 0), None);
}

#[test]
fn rule_sanctions() {
    assert_eq!(rule_sanction("Timeout"), RuleSanction::Mute);
    assert_eq!(rule_sanction("ban"), RuleSanction::Ban);
    assert_eq!(rule_sanction("nothing"), RuleSanction::Nothing);
    assert_eq!(sanction_record_kind(RuleSanction::Mute), Some("tempmute"));
    assert_eq!(sanction_record_kind(RuleSanction::Nothing), None);
    assert_eq!(mute_seconds(None), 3600);
    assert_eq!(mute_seconds(Some(0)), 1);
    assert_eq!(mute_seconds(Some(10_000_000)), 2_419_200);
    assert_eq!(rule_outcome(RuleSanction::Mute, true, true, 600), "timeout 10m");
    assert_eq!(rule_outcome(RuleSanction::Mute, true, false, 3600), "mute role 1h");
    assert_eq!(rule_outcome(RuleSanction::Kick, false, true, 0), "kick (echec)");
    assert_eq!(rule_outcome(RuleSanction::Nothing, true, true, 0), "aucune");
    assert_eq!(violation_strikes(None), 1);
    assert_eq!(violation_strikes(Some(-3)), 0);
    assert_eq!(violation_strikes(Some(4)), 4);
}

#[test]
fn recent_triggers() {
    let s = 1_000_000_000i64;
    assert!(triggered_recently(10 * s, 5 * s, 10));
    assert!(!triggered_recently(20 * s, 5 * s, 10));
}

#[test]
fn last_firing_rule_is_chosen() {
    let rules = vec![
        RuleCheck { strikes_in_window: Some(3), threshold: 2, triggered_recently: false },
        RuleCheck { strikes_in_window: Some(5), threshold: 4, triggered_recently: false },
        RuleCheck { strikes_in_window: Some(9), threshold: 6, triggered_recently: true },
        RuleCheck { strikes_in_window: None, threshold: 1, triggered_recently: false },
    ];
    assert_eq!(select_punish_rule(&rules), Some(1));
    let none = vec![RuleCheck { strikes_in_window: Some(1), threshold: 2, triggered_recently: false }];
    assert_eq!(select_punish_rule(&none), None);
}

#[test]
fn verdict_order() {
    let s = settings();
    let words = vec!["bad".to_string()];
    assert_eq!(
        automod_verdict(&s, None, None, "so BAD", &words, 5),
        AutomodVerdict::Violation(AutomodTrigger::Badword)
    );
    assert_eq!(
        automod_verdict(&s, None, None, "hello", &words, 3),
        AutomodVerdict::Violation(AutomodTrigger::MassMention)
    );
    assert_eq!(
        automod_verdict(&s, None, None, "discord.gg/x", &words, 0),
        AutomodVerdict::Violation(AutomodTrigger::Link)
    );
    assert_eq!(
        automod_verdict(&s, None, Some("allow"), "discord.gg/x", &words, 0),
        AutomodVerdict::CheckSpam { limit: 5, window_seconds: 10 }
    );
    assert_eq!(
        automod_verdict(&s, Some("allow"), None, "hello", &words, 0),
        AutomodVerdict::Clean
    );
}

#[test]
fn violation_texts() {
    assert_eq!(trigger_name(AutomodTrigger::MassMention), "massmention");
    assert!(!violation_reason(AutomodTrigger::Spam).is_empty());
    assert_eq!(
        violation_report("Spam", 42, "spam", "new", 1, "warn"),
        "Spam\nMembre: <@42>\nTrigger: `spam` · Profil: `new` · Strikes: `+1`\nAction: `warn`"
    );
}

#[test]
fn member_profiles() {
    let roles = vec![7u64, 9];
    assert_eq!(member_profile(Some((true, Some(9))), Some(&roles)), "old");
    assert_eq!(member_profile(Some((false, Some(9))), Some(&roles)), "new");
    assert_eq!(member_profile(Some((true, Some(8))), Some(&roles)), "new");
    assert_eq!(member_profile(None, Some(&roles)), "new");
}

#[test]
fn public_commands() {
    assert!(public_command_allowed(true, 0, Some(false), Some("deny")));
    assert!(public_command_allowed(false, 2, Some(false), None));
    assert!(public_command_allowed(false, 0, None, Some("deny")));
    assert!(!public_command_allowed(false, 0, Some(true), Some("DENY")));
    assert!(public_command_allowed(false, 0, Some(false), Some("Allow")));
    assert!(!public_command_allowed(false, 0, Some(false), None));
    assert_eq!(
        public_command_notice("clear_all"),
        "La commande `clear all` est desactivee dans ce salon."
    );
}
