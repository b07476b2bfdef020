//! Automatic moderation: the settings parsers of the automod commands,
//! durations read and printed, link detection, the per-member spam window,
//! and the decisions taken on each message and on each strike threshold.
use vstd::prelude::*;

use crate::text::{
    chars_are, chars_of, contains_chars, contains_seq, contains_str, decimal, extend_chars,
    push_signed_decimal, signed_decimal, eq_ignore_ascii_case,
    eq_ignore_ascii_case_seq, extend_str, is_ascii_digit, is_digit, is_whitespace, is_ws,
    join_chars, join_seq, lowercase_chars, normalize, normalized, parse_i32_chars,
    parse_i32_spec, parse_i64_chars, parse_i64_spec, push_decimal, str_lowercase, string_of,
    trim_chars, trim_seq, views_of, is_ascii_seq, ascii_lower_seq, all_digits, is_ascii_char,
    is_ascii_upper, ascii_lower, lemma_decimal_all_digits, trim_start_seq, trim_end_seq, lemma_parse_i64_signed_decimal,
};

verus! {

/// An optional static text, by its characters.
pub open spec fn opt_text(o: Option<&str>) -> Option<Seq<char>> {
    match o {
        Some(s) => Some(s@),
        None => None,
    }
}

// ---------------------------------------------------------------------------
// Keyword parsers
// ---------------------------------------------------------------------------

/// The switch position that a (normalized) word names.
pub open spec fn on_off_of(key: Seq<char>) -> Option<bool> {
    if key == "on"@ || key == "enable"@ || key == "enabled"@ || key == "true"@ || key == "1"@ {
        Some(true)
    } else if key == "off"@ || key == "disable"@ || key == "disabled"@ || key == "false"@ || key
        == "0"@ {
        Some(false)
    } else {
        None
    }
}

/// The automod trigger that a (normalized) word names.
pub open spec fn trigger_of(key: Seq<char>) -> Option<Seq<char>> {
    if key == "spam"@ || key == "antispam"@ {
        Some("spam"@)
    } else if key == "link"@ || key == "antilink"@ {
        Some("link"@)
    } else if key == "massmention"@ || key == "antimassmention"@ || key == "mention"@ || key
        == "mentions"@ {
        Some("massmention"@)
    } else if key == "badword"@ || key == "badwords"@ || key == "mauvaismot"@ || key
        == "motinterdit"@ {
        Some("badword"@)
    } else {
        None
    }
}

/// The member profile that a (normalized) word names.
pub open spec fn profile_of(key: Seq<char>) -> Option<Seq<char>> {
    if key == "ancien"@ || key == "old"@ {
        Some("old"@)
    } else if key == "nouveau"@ || key == "new"@ {
        Some("new"@)
    } else {
        None
    }
}

/// The sanction that a (normalized) word names.
pub open spec fn sanction_of(key: Seq<char>) -> Option<Seq<char>> {
    if key == "warn"@ || key == "avert"@ {
        Some("warn"@)
    } else if key == "mute"@ || key == "timeout"@ {
        Some("mute"@)
    } else if key == "kick"@ {
        Some("kick"@)
    } else if key == "ban"@ {
        Some("ban"@)
    } else {
        None
    }
}

/// Reads an on/off switch: `on`, `enable`, `enabled`, `true`, `1` and
/// `off`, `disable`, `disabled`, `false`, `0`, in any case, around spaces.
pub fn parse_on_off(input: &str) -> (r: Option<bool>)
    ensures
        r == on_off_of(normalized(input@)),
{
    let key = normalize(input);
    if chars_are(&key, "on") || chars_are(&key, "enable") || chars_are(&key, "enabled")
        || chars_are(&key, "true") || chars_are(&key, "1") {
        Some(true)
    } else if chars_are(&key, "off") || chars_are(&key, "disable") || chars_are(&key, "disabled")
        || chars_are(&key, "false") || chars_are(&key, "0") {
        Some(false)
    } else {
        None
    }
}

/// Reads the name of an automod trigger.
pub fn parse_trigger(input: &str) -> (r: Option<&'static str>)
    ensures
        opt_text(r) == trigger_of(normalized(input@)),
{
    let key = normalize(input);
    if chars_are(&key, "spam") || chars_are(&key, "antispam") {
        Some("spam")
    } else if chars_are(&key, "link") || chars_are(&key, "antilink") {
        Some("link")
    } else if chars_are(&key, "massmention") || chars_are(&key, "antimassmention") || chars_are(
        &key,
        "mention",
    ) || chars_are(&key, "mentions") {
        Some("massmention")
    } else if chars_are(&key, "badword") || chars_are(&key, "badwords") || chars_are(
        &key,
        "mauvaismot",
    ) || chars_are(&key, "motinterdit") {
        Some("badword")
    } else {
        None
    }
}

/// Reads a member profile; nothing given reads as nothing.
pub fn parse_profile(input: Option<&str>) -> (r: Option<&'static str>)
    ensures
        opt_text(r) == match input {
            Some(s) => profile_of(normalized(s@)),
            None => None,
        },
{
    match input {
        None => None,
        Some(s) => {
            let key = normalize(s);
            if chars_are(&key, "ancien") || chars_are(&key, "old") {
                Some("old")
            } else if chars_are(&key, "nouveau") || chars_are(&key, "new") {
                Some("new")
            } else {
                None
            }
        },
    }
}

/// Reads the name of a sanction.
pub fn parse_sanction(input: &str) -> (r: Option<&'static str>)
    ensures
        opt_text(r) == sanction_of(normalized(input@)),
{
    let key = normalize(input);
    if chars_are(&key, "warn") || chars_are(&key, "avert") {
        Some("warn")
    } else if chars_are(&key, "mute") || chars_are(&key, "timeout") {
        Some("mute")
    } else if chars_are(&key, "kick") {
        Some("kick")
    } else if chars_are(&key, "ban") {
        Some("ban")
    } else {
        None
    }
}

/// The words of a switch: `on`, `enable`, `enabled`, `true`, `1` turn a
/// check on; `off`, `disable`, `disabled`, `false`, `0` turn it off.
pub proof fn lemma_on_off_words(key: Seq<char>)
    ensures
        (key == "on"@ || key == "enable"@ || key == "enabled"@ || key == "true"@ || key == "1"@) ==> on_off_of(key) == Some(true),
        (key == "off"@ || key == "disable"@ || key == "disabled"@ || key == "false"@ || key == "0"@) ==> on_off_of(key) == Some(false),
{
    reveal_strlit("on");
    reveal_strlit("enable");
    reveal_strlit("enabled");
    reveal_strlit("true");
    reveal_strlit("1");
    reveal_strlit("off");
    reveal_strlit("disable");
    reveal_strlit("disabled");
    reveal_strlit("false");
    reveal_strlit("0");
    if key == "enable"@ {
        assert("enable"@.len() != "on"@.len());
    }
    if key == "enabled"@ {
        assert("enabled"@.len() != "on"@.len());
        assert("enabled"@.len() != "enable"@.len());
    }
    if key == "true"@ {
        assert("true"@.len() != "on"@.len());
        assert("true"@.len() != "enable"@.len());
        assert("true"@.len() != "enabled"@.len());
    }
    if key == "1"@ {
        assert("1"@.len() != "on"@.len());
        assert("1"@.len() != "enable"@.len());
        assert("1"@.len() != "enabled"@.len());
        assert("1"@.len() != "true"@.len());
    }
    if key == "off"@ {
        assert("off"@.len() != "on"@.len());
        assert("off"@.len() != "enable"@.len());
        assert("off"@.len() != "enabled"@.len());
        assert("off"@.len() != "true"@.len());
        assert("off"@.len() != "1"@.len());
    }
    if key == "disable"@ {
        assert("disable"@.len() != "on"@.len());
        assert("disable"@.len() != "enable"@.len());
        assert("disable"@[0] != "enabled"@[0]);
        assert("disable"@.len() != "true"@.len());
        assert("disable"@.len() != "1"@.len());
        assert("disable"@.len() != "off"@.len());
    }
    if key == "disabled"@ {
        assert("disabled"@.len() != "on"@.len());
        assert("disabled"@.len() != "enable"@.len());
        assert("disabled"@.len() != "enabled"@.len());
        assert("disabled"@.len() != "true"@.len());
        assert("disabled"@.len() != "1"@.len());
        assert("disabled"@.len() != "off"@.len());
        assert("disabled"@.len() != "disable"@.len());
    }
    if key == "false"@ {
        assert("false"@.len() != "on"@.len());
        assert("false"@.len() != "enable"@.len());
        assert("false"@.len() != "enabled"@.len());
        assert("false"@.len() != "true"@.len());
        assert("false"@.len() != "1"@.len());
        assert("false"@.len() != "off"@.len());
        assert("false"@.len() != "disable"@.len());
        assert("false"@.len() != "disabled"@.len());
    }
    if key == "0"@ {
        assert("0"@.len() != "on"@.len());
        assert("0"@.len() != "enable"@.len());
        assert("0"@.len() != "enabled"@.len());
        assert("0"@.len() != "true"@.len());
        assert("0"@[0] != "1"@[0]);
        assert("0"@.len() != "off"@.len());
        assert("0"@.len() != "disable"@.len());
        assert("0"@.len() != "disabled"@.len());
        assert("0"@.len() != "false"@.len());
    }
}

/// The words of the triggers: `spam`/`antispam`, `link`/`antilink`,
/// `massmention`/`antimassmention`/`mention`/`mentions`, and
/// `badword`/`badwords`/`mauvaismot`/`motinterdit`.
pub proof fn lemma_trigger_words(key: Seq<char>)
    ensures
        (key == "spam"@ || key == "antispam"@) ==> trigger_of(key) == Some("spam"@),
        (key == "link"@ || key == "antilink"@) ==> trigger_of(key) == Some("link"@),
        (key == "massmention"@ || key == "antimassmention"@ || key == "mention"@ || key == "mentions"@) ==> trigger_of(key) == Some("massmention"@),
        (key == "badword"@ || key == "badwords"@ || key == "mauvaismot"@ || key == "motinterdit"@) ==> trigger_of(key) == Some("badword"@),
{
    reveal_strlit("spam");
    reveal_strlit("antispam");
    reveal_strlit("link");
    reveal_strlit("antilink");
    reveal_strlit("massmention");
    reveal_strlit("antimassmention");
    reveal_strlit("mention");
    reveal_strlit("mentions");
    reveal_strlit("badword");
    reveal_strlit("badwords");
    reveal_strlit("mauvaismot");
    reveal_strlit("motinterdit");
    if key == "antispam"@ {
        assert("antispam"@.len() != "spam"@.len());
    }
    if key == "link"@ {
        assert("link"@[0] != "spam"@[0]);
        assert("link"@.len() != "antispam"@.len());
    }
    if key == "antilink"@ {
        assert("antilink"@.len() != "spam"@.len());
        assert("antilink"@[4] != "antispam"@[4]);
        assert("antilink"@.len() != "link"@.len());
    }
    if key == "massmention"@ {
        assert("massmention"@.len() != "spam"@.len());
        assert("massmention"@.len() != "antispam"@.len());
        assert("massmention"@.len() != "link"@.len());
        assert("massmention"@.len() != "antilink"@.len());
    }
    if key == "antimassmention"@ {
        assert("antimassmention"@.len() != "spam"@.len());
        assert("antimassmention"@.len() != "antispam"@.len());
        assert("antimassmention"@.len() != "link"@.len());
        assert("antimassmention"@.len() != "antilink"@.len());
        assert("antimassmention"@.len() != "massmention"@.len());
    }
    if key == "mention"@ {
        assert("mention"@.len() != "spam"@.len());
        assert("mention"@.len() != "antispam"@.len());
        assert("mention"@.len() != "link"@.len());
        assert("mention"@.len() != "antilink"@.len());
        assert("mention"@.len() != "massmention"@.len());
        assert("mention"@.len() != "antimassmention"@.len());
    }
    if key == "mentions"@ {
        assert("mentions"@.len() != "spam"@.len());
        assert("mentions"@[0] != "antispam"@[0]);
        assert("mentions"@.len() != "link"@.len());
        assert("mentions"@[0] != "antilink"@[0]);
        assert("mentions"@.len() != "massmention"@.len());
        assert("mentions"@.len() != "antimassmention"@.len());
        assert("mentions"@.len() != "mention"@.len());
    }
    if key == "badword"@ {
        assert("badword"@.len() != "spam"@.len());
        assert("badword"@.len() != "antispam"@.len());
        assert("badword"@.len() != "link"@.len());
        assert("badword"@.len() != "antilink"@.len());
        assert("badword"@.len() != "massmention"@.len());
        assert("badword"@.len() != "antimassmention"@.len());
        assert("badword"@[0] != "mention"@[0]);
        assert("badword"@.len() != "mentions"@.len());
    }
    if key == "badwords"@ {
        assert("badwords"@.len() != "spam"@.len());
        assert("badwords"@[0] != "antispam"@[0]);
        assert("badwords"@.len() != "link"@.len());
        assert("badwords"@[0] != "antilink"@[0]);
        assert("badwords"@.len() != "massmention"@.len());
        assert("badwords"@.len() != "antimassmention"@.len());
        assert("badwords"@.len() != "mention"@.len());
        assert("badwords"@[0] != "mentions"@[0]);
        assert("badwords"@.len() != "badword"@.len());
    }
    if key == "mauvaismot"@ {
        assert("mauvaismot"@.len() != "spam"@.len());
        assert("mauvaismot"@.len() != "antispam"@.len());
        assert("mauvaismot"@.len() != "link"@.len());
        assert("mauvaismot"@.len() != "antilink"@.len());
        assert("mauvaismot"@.len() != "massmention"@.len());
        assert("mauvaismot"@.len() != "antimassmention"@.len());
        assert("mauvaismot"@.len() != "mention"@.len());
        assert("mauvaismot"@.len() != "mentions"@.len());
        assert("mauvaismot"@.len() != "badword"@.len());
        assert("mauvaismot"@.len() != "badwords"@.len());
    }
    if key == "motinterdit"@ {
        assert("motinterdit"@.len() != "spam"@.len());
        assert("motinterdit"@.len() != "antispam"@.len());
        assert("motinterdit"@.len() != "link"@.len());
        assert("motinterdit"@.len() != "antilink"@.len());
        assert("motinterdit"@[1] != "massmention"@[1]);
        assert("motinterdit"@.len() != "antimassmention"@.len());
        assert("motinterdit"@.len() != "mention"@.len());
        assert("motinterdit"@.len() != "mentions"@.len());
        assert("motinterdit"@.len() != "badword"@.len());
        assert("motinterdit"@.len() != "badwords"@.len());
        assert("motinterdit"@.len() != "mauvaismot"@.len());
    }
}

/// The words of the member profiles: `ancien`/`old` and `nouveau`/`new`.
pub proof fn lemma_profile_words(key: Seq<char>)
    ensures
        (key == "ancien"@ || key == "old"@) ==> profile_of(key) == Some("old"@),
        (key == "nouveau"@ || key == "new"@) ==> profile_of(key) == Some("new"@),
{
    reveal_strlit("ancien");
    reveal_strlit("old");
    reveal_strlit("nouveau");
    reveal_strlit("new");
    if key == "old"@ {
        assert("old"@.len() != "ancien"@.len());
    }
    if key == "nouveau"@ {
        assert("nouveau"@.len() != "ancien"@.len());
        assert("nouveau"@.len() != "old"@.len());
    }
    if key == "new"@ {
        assert("new"@.len() != "ancien"@.len());
        assert("new"@[0] != "old"@[0]);
        assert("new"@.len() != "nouveau"@.len());
    }
}

/// The words of the sanctions: `warn`/`avert`, `mute`/`timeout`, `kick`,
/// `ban`.
pub proof fn lemma_sanction_words(key: Seq<char>)
    ensures
        (key == "warn"@ || key == "avert"@) ==> sanction_of(key) == Some("warn"@),
        (key == "mute"@ || key == "timeout"@) ==> sanction_of(key) == Some("mute"@),
        (key == "kick"@) ==> sanction_of(key) == Some("kick"@),
        (key == "ban"@) ==> sanction_of(key) == Some("ban"@),
{
    reveal_strlit("warn");
    reveal_strlit("avert");
    reveal_strlit("mute");
    reveal_strlit("timeout");
    reveal_strlit("kick");
    reveal_strlit("ban");
    if key == "avert"@ {
        assert("avert"@.len() != "warn"@.len());
    }
    if key == "mute"@ {
        assert("mute"@[0] != "warn"@[0]);
        assert("mute"@.len() != "avert"@.len());
    }
    if key == "timeout"@ {
        assert("timeout"@.len() != "warn"@.len());
        assert("timeout"@.len() != "avert"@.len());
        assert("timeout"@.len() != "mute"@.len());
    }
    if key == "kick"@ {
        assert("kick"@[0] != "warn"@[0]);
        assert("kick"@.len() != "avert"@.len());
        assert("kick"@[0] != "mute"@[0]);
        assert("kick"@.len() != "timeout"@.len());
    }
    if key == "ban"@ {
        assert("ban"@.len() != "warn"@.len());
        assert("ban"@.len() != "avert"@.len());
        assert("ban"@.len() != "mute"@.len());
        assert("ban"@.len() != "timeout"@.len());
        assert("ban"@.len() != "kick"@.len());
    }
}

/// The sanctions a punishment rule names, once lowercased: `warn`,
/// `mute` or `timeout`, `kick`, `ban`.
pub proof fn lemma_rule_sanction_words(lower: Seq<char>)
    ensures
        (lower == "warn"@) ==> rule_sanction_of(lower) == RuleSanction::Warn,
        (lower == "mute"@ || lower == "timeout"@) ==> rule_sanction_of(lower) == RuleSanction::Mute,
        (lower == "kick"@) ==> rule_sanction_of(lower) == RuleSanction::Kick,
        (lower == "ban"@) ==> rule_sanction_of(lower) == RuleSanction::Ban,
{
    reveal_strlit("warn");
    reveal_strlit("mute");
    reveal_strlit("timeout");
    reveal_strlit("kick");
    reveal_strlit("ban");
    if lower == "mute"@ {
        assert("mute"@[0] != "warn"@[0]);
    }
    if lower == "timeout"@ {
        assert("timeout"@.len() != "warn"@.len());
        assert("timeout"@.len() != "mute"@.len());
    }
    if lower == "kick"@ {
        assert("kick"@[0] != "warn"@[0]);
        assert("kick"@[0] != "mute"@[0]);
        assert("kick"@.len() != "timeout"@.len());
    }
    if lower == "ban"@ {
        assert("ban"@.len() != "warn"@.len());
        assert("ban"@.len() != "mute"@.len());
        assert("ban"@.len() != "timeout"@.len());
        assert("ban"@.len() != "kick"@.len());
    }
}

/// The units of a moderation duration and their seconds: `s`, `sec`,
/// `secs`, `seconde`, `secondes` one; `m`, `min`, `mins`, `minute`,
/// `minutes` sixty; `h`, `heure`, `heures` an hour; `j`, `d`, `jour`,
/// `jours` a day; `w`, `sem`, `semaine`, `semaines` a week.
pub proof fn lemma_duration_unit_words(u: Seq<char>)
    ensures
        (u == "s"@ || u == "sec"@ || u == "secs"@ || u == "seconde"@ || u == "secondes"@) ==> unit_factor(u) == Some(1int),
        (u == "m"@ || u == "min"@ || u == "mins"@ || u == "minute"@ || u == "minutes"@) ==> unit_factor(u) == Some(60int),
        (u == "h"@ || u == "heure"@ || u == "heures"@) ==> unit_factor(u) == Some(3600int),
        (u == "j"@ || u == "d"@ || u == "jour"@ || u == "jours"@) ==> unit_factor(u) == Some(86400int),
        (u == "w"@ || u == "sem"@ || u == "semaine"@ || u == "semaines"@) ==> unit_factor(u) == Some(604800int),
{
    reveal_strlit("s");
    reveal_strlit("sec");
    reveal_strlit("secs");
    reveal_strlit("seconde");
    reveal_strlit("secondes");
    reveal_strlit("m");
    reveal_strlit("min");
    reveal_strlit("mins");
    reveal_strlit("minute");
    reveal_strlit("minutes");
    reveal_strlit("h");
    reveal_strlit("heure");
    reveal_strlit("heures");
    reveal_strlit("j");
    reveal_strlit("d");
    reveal_strlit("jour");
    reveal_strlit("jours");
    reveal_strlit("w");
    reveal_strlit("sem");
    reveal_strlit("semaine");
    reveal_strlit("semaines");
    if u == "sec"@ {
        assert("sec"@.len() != "s"@.len());
    }
    if u == "secs"@ {
        assert("secs"@.len() != "s"@.len());
        assert("secs"@.len() != "sec"@.len());
    }
    if u == "seconde"@ {
        assert("seconde"@.len() != "s"@.len());
        assert("seconde"@.len() != "sec"@.len());
        assert("seconde"@.len() != "secs"@.len());
    }
    if u == "secondes"@ {
        assert("secondes"@.len() != "s"@.len());
        assert("secondes"@.len() != "sec"@.len());
        assert("secondes"@.len() != "secs"@.len());
        assert("secondes"@.len() != "seconde"@.len());
    }
    if u == "m"@ {
        assert("m"@[0] != "s"@[0]);
        assert("m"@.len() != "sec"@.len());
        assert("m"@.len() != "secs"@.len());
        assert("m"@.len() != "seconde"@.len());
        assert("m"@.len() != "secondes"@.len());
    }
    if u == "min"@ {
        assert("min"@.len() != "s"@.len());
        assert("min"@[0] != "sec"@[0]);
        assert("min"@.len() != "secs"@.len());
        assert("min"@.len() != "seconde"@.len());
        assert("min"@.len() != "secondes"@.len());
        assert("min"@.len() != "m"@.len());
    }
    if u == "mins"@ {
        assert("mins"@.len() != "s"@.len());
        assert("mins"@.len() != "sec"@.len());
        assert("mins"@[0] != "secs"@[0]);
        assert("mins"@.len() != "seconde"@.len());
        assert("mins"@.len() != "secondes"@.len());
        assert("mins"@.len() != "m"@.len());
        assert("mins"@.len() != "min"@.len());
    }
    if u == "minute"@ {
        assert("minute"@.len() != "s"@.len());
        assert("minute"@.len() != "sec"@.len());
        assert("minute"@.len() != "secs"@.len());
        assert("minute"@.len() != "seconde"@.len());
        assert("minute"@.len() != "secondes"@.len());
        assert("minute"@.len() != "m"@.len());
        assert("minute"@.len() != "min"@.len());
        assert("minute"@.len() != "mins"@.len());
    }
    if u == "minutes"@ {
        assert("minutes"@.len() != "s"@.len());
        assert("minutes"@.len() != "sec"@.len());
        assert("minutes"@.len() != "secs"@.len());
        assert("minutes"@[0] != "seconde"@[0]);
        assert("minutes"@.len() != "secondes"@.len());
        assert("minutes"@.len() != "m"@.len());
        assert("minutes"@.len() != "min"@.len());
        assert("minutes"@.len() != "mins"@.len());
        assert("minutes"@.len() != "minute"@.len());
    }
    if u == "h"@ {
        assert("h"@[0] != "s"@[0]);
        assert("h"@.len() != "sec"@.len());
        assert("h"@.len() != "secs"@.len());
        assert("h"@.len() != "seconde"@.len());
        assert("h"@.len() != "secondes"@.len());
        assert("h"@[0] != "m"@[0]);
        assert("h"@.len() != "min"@.len());
        assert("h"@.len() != "mins"@.len());
        assert("h"@.len() != "minute"@.len());
        assert("h"@.len() != "minutes"@.len());
    }
    if u == "heure"@ {
        assert("heure"@.len() != "s"@.len());
        assert("heure"@.len() != "sec"@.len());
        assert("heure"@.len() != "secs"@.len());
        assert("heure"@.len() != "seconde"@.len());
        assert("heure"@.len() != "secondes"@.len());
        assert("heure"@.len() != "m"@.len());
        assert("heure"@.len() != "min"@.len());
        assert("heure"@.len() != "mins"@.len());
        assert("heure"@.len() != "minute"@.len());
        assert("heure"@.len() != "minutes"@.len());
        assert("heure"@.len() != "h"@.len());
    }
    if u == "heures"@ {
        assert("heures"@.len() != "s"@.len());
        assert("heures"@.len() != "sec"@.len());
        assert("heures"@.len() != "secs"@.len());
        assert("heures"@.len() != "seconde"@.len());
        assert("heures"@.len() != "secondes"@.len());
        assert("heures"@.len() != "m"@.len());
        assert("heures"@.len() != "min"@.len());
        assert("heures"@.len() != "mins"@.len());
        assert("heures"@[0] != "minute"@[0]);
        assert("heures"@.len() != "minutes"@.len());
        assert("heures"@.len() != "h"@.len());
        assert("heures"@.len() != "heure"@.len());
    }
    if u == "j"@ {
        assert("j"@[0] != "s"@[0]);
        assert("j"@.len() != "sec"@.len());
        assert("j"@.len() != "secs"@.len());
        assert("j"@.len() != "seconde"@.len());
        assert("j"@.len() != "secondes"@.len());
        assert("j"@[0] != "m"@[0]);
        assert("j"@.len() != "min"@.len());
        assert("j"@.len() != "mins"@.len());
        assert("j"@.len() != "minute"@.len());
        assert("j"@.len() != "minutes"@.len());
        assert("j"@[0] != "h"@[0]);
        assert("j"@.len() != "heure"@.len());
        assert("j"@.len() != "heures"@.len());
    }
    if u == "d"@ {
        assert("d"@[0] != "s"@[0]);
        assert("d"@.len() != "sec"@.len());
        assert("d"@.len() != "secs"@.len());
        assert("d"@.len() != "seconde"@.len());
        assert("d"@.len() != "secondes"@.len());
        assert("d"@[0] != "m"@[0]);
        assert("d"@.len() != "min"@.len());
        assert("d"@.len() != "mins"@.len());
        assert("d"@.len() != "minute"@.len());
        assert("d"@.len() != "minutes"@.len());
        assert("d"@[0] != "h"@[0]);
        assert("d"@.len() != "heure"@.len());
        assert("d"@.len() != "heures"@.len());
        assert("d"@[0] != "j"@[0]);
    }
    if u == "jour"@ {
        assert("jour"@.len() != "s"@.len());
        assert("jour"@.len() != "sec"@.len());
        assert("jour"@[0] != "secs"@[0]);
        assert("jour"@.len() != "seconde"@.len());
        assert("jour"@.len() != "secondes"@.len());
        assert("jour"@.len() != "m"@.len());
        assert("jour"@.len() != "min"@.len());
        assert("jour"@[0] != "mins"@[0]);
        assert("jour"@.len() != "minute"@.len());
        assert("jour"@.len() != "minutes"@.len());
        assert("jour"@.len() != "h"@.len());
        assert("jour"@.len() != "heure"@.len());
        assert("jour"@.len() != "heures"@.len());
        assert("jour"@.len() != "j"@.len());
        assert("jour"@.len() != "d"@.len());
    }
    if u == "jours"@ {
        assert("jours"@.len() != "s"@.len());
        assert("jours"@.len() != "sec"@.len());
        assert("jours"@.len() != "secs"@.len());
        assert("jours"@.len() != "seconde"@.len());
        assert("jours"@.len() != "secondes"@.len());
        assert("jours"@.len() != "m"@.len());
        assert("jours"@.len() != "min"@.len());
        assert("jours"@.len() != "mins"@.len());
        assert("jours"@.len() != "minute"@.len());
        assert("jours"@.len() != "minutes"@.len());
        assert("jours"@.len() != "h"@.len());
        assert("jours"@[0] != "heure"@[0]);
        assert("jours"@.len() != "heures"@.len());
        assert("jours"@.len() != "j"@.len());
        assert("jours"@.len() != "d"@.len());
        assert("jours"@.len() != "jour"@.len());
    }
    if u == "w"@ {
        assert("w"@[0] != "s"@[0]);
        assert("w"@.len() != "sec"@.len());
        assert("w"@.len() != "secs"@.len());
        assert("w"@.len() != "seconde"@.len());
        assert("w"@.len() != "secondes"@.len());
        assert("w"@[0] != "m"@[0]);
        assert("w"@.len() != "min"@.len());
        assert("w"@.len() != "mins"@.len());
        assert("w"@.len() != "minute"@.len());
        assert("w"@.len() != "minutes"@.len());
        assert("w"@[0] != "h"@[0]);
        assert("w"@.len() != "heure"@.len());
        assert("w"@.len() != "heures"@.len());
        assert("w"@[0] != "j"@[0]);
        assert("w"@[0] != "d"@[0]);
        assert("w"@.len() != "jour"@.len());
        assert("w"@.len() != "jours"@.len());
    }
    if u == "sem"@ {
        assert("sem"@.len() != "s"@.len());
        assert("sem"@[2] != "sec"@[2]);
        assert("sem"@.len() != "secs"@.len());
        assert("sem"@.len() != "seconde"@.len());
        assert("sem"@.len() != "secondes"@.len());
        assert("sem"@.len() != "m"@.len());
        assert("sem"@[0] != "min"@[0]);
        assert("sem"@.len() != "mins"@.len());
        assert("sem"@.len() != "minute"@.len());
        assert("sem"@.len() != "minutes"@.len());
        assert("sem"@.len() != "h"@.len());
        assert("sem"@.len() != "heure"@.len());
        assert("sem"@.len() != "heures"@.len());
        assert("sem"@.len() != "j"@.len());
        assert("sem"@.len() != "d"@.len());
        assert("sem"@.len() != "jour"@.len());
        assert("sem"@.len() != "jours"@.len());
        assert("sem"@.len() != "w"@.len());
    }
    if u == "semaine"@ {
        assert("semaine"@.len() != "s"@.len());
        assert("semaine"@.len() != "sec"@.len());
        assert("semaine"@.len() != "secs"@.len());
        assert("semaine"@[2] != "seconde"@[2]);
        assert("semaine"@.len() != "secondes"@.len());
        assert("semaine"@.len() != "m"@.len());
        assert("semaine"@.len() != "min"@.len());
        assert("semaine"@.len() != "mins"@.len());
        assert("semaine"@.len() != "minute"@.len());
        assert("semaine"@[0] != "minutes"@[0]);
        assert("semaine"@.len() != "h"@.len());
        assert("semaine"@.len() != "heure"@.len());
        assert("semaine"@.len() != "heures"@.len());
        assert("semaine"@.len() != "j"@.len());
        assert("semaine"@.len() != "d"@.len());
        assert("semaine"@.len() != "jour"@.len());
        assert("semaine"@.len() != "jours"@.len());
        assert("semaine"@.len() != "w"@.len());
        assert("semaine"@.len() != "sem"@.len());
    }
    if u == "semaines"@ {
        assert("semaines"@.len() != "s"@.len());
        assert("semaines"@.len() != "sec"@.len());
        assert("semaines"@.len() != "secs"@.len());
        assert("semaines"@.len() != "seconde"@.len());
        assert("semaines"@[2] != "secondes"@[2]);
        assert("semaines"@.len() != "m"@.len());
        assert("semaines"@.len() != "min"@.len());
        assert("semaines"@.len() != "mins"@.len());
        assert("semaines"@.len() != "minute"@.len());
        assert("semaines"@.len() != "minutes"@.len());
        assert("semaines"@.len() != "h"@.len());
        assert("semaines"@.len() != "heure"@.len());
        assert("semaines"@.len() != "heures"@.len());
        assert("semaines"@.len() != "j"@.len());
        assert("semaines"@.len() != "d"@.len());
        assert("semaines"@.len() != "jour"@.len());
        assert("semaines"@.len() != "jours"@.len());
        assert("semaines"@.len() != "w"@.len());
        assert("semaines"@.len() != "sem"@.len());
        assert("semaines"@.len() != "semaine"@.len());
    }
}

/// Whether a check is on in a channel: a channel set to `allow` lets
/// everything through, one set to `deny` is checked, and any other channel
/// follows the server-wide switch.
pub open spec fn channel_override_spec(global_enabled: bool, mode: Option<Seq<char>>) -> bool {
    match mode {
        Some(m) => if eq_ignore_ascii_case_seq(m, "allow"@) {
            false
        } else if eq_ignore_ascii_case_seq(m, "deny"@) {
            true
        } else {
            global_enabled
        },
        None => global_enabled,
    }
}

/// Applies a channel's override mode to the server-wide switch of a check.
pub fn apply_channel_override(global_enabled: bool, override_mode: Option<&str>) -> (r: bool)
    ensures
        r == channel_override_spec(global_enabled, opt_text(override_mode)),
{
    match override_mode {
        Some(mode) => {
            if eq_ignore_ascii_case(mode, "allow") {
                false
            } else if eq_ignore_ascii_case(mode, "deny") {
                true
            } else {
                global_enabled
            }
        },
        None => global_enabled,
    }
}

// ---------------------------------------------------------------------------
// Links
// ---------------------------------------------------------------------------

pub open spec fn has_invite_link(content: Seq<char>) -> bool {
    let lower = str_lowercase(content);
    contains_seq(lower, "discord.gg/"@) || contains_seq(lower, "discord.com/invite/"@)
        || contains_seq(lower, "discordapp.com/invite/"@)
}

pub open spec fn has_any_link(content: Seq<char>) -> bool {
    let lower = str_lowercase(content);
    contains_seq(lower, "http://"@) || contains_seq(lower, "https://"@) || contains_seq(
        lower,
        "www."@,
    ) || contains_seq(lower, "discord.gg/"@)
}

/// Whether a message holds a server invitation, in any case.
pub fn contains_invite_link(content: &str) -> (r: bool)
    ensures
        r == has_invite_link(content@),
{
    let v = chars_of(content);
    let lower = lowercase_chars(&v);
    contains_str(&lower, "discord.gg/") || contains_str(&lower, "discord.com/invite/")
        || contains_str(&lower, "discordapp.com/invite/")
}

/// Whether a message holds any link, in any case.
pub fn contains_any_link(content: &str) -> (r: bool)
    ensures
        r == has_any_link(content@),
{
    let v = chars_of(content);
    let lower = lowercase_chars(&v);
    contains_str(&lower, "http://") || contains_str(&lower, "https://") || contains_str(
        &lower,
        "www.",
    ) || contains_str(&lower, "discord.gg/")
}

// ---------------------------------------------------------------------------
// Durations
// ---------------------------------------------------------------------------

/// Splits a duration into its number and its unit: digits go to the
/// number, other non-space characters to the unit, spaces are skipped; a
/// digit after the unit has begun makes the text unreadable.
pub open spec fn scan_amount(s: Seq<char>) -> Option<(Seq<char>, Seq<char>)>
    decreases s.len(),
{
    if s.len() == 0 {
        Some((Seq::empty(), Seq::empty()))
    } else {
        match scan_amount(s.drop_last()) {
            None => None,
            Some(p) => {
                let c = s.last();
                if is_digit(c) {
                    if p.1.len() > 0 {
                        None
                    } else {
                        Some((p.0.push(c), p.1))
                    }
                } else if !is_ws(c) {
                    Some((p.0, p.1.push(c)))
                } else {
                    Some(p)
                }
            },
        }
    }
}

/// The number of seconds in one of a unit.
pub open spec fn unit_factor(u: Seq<char>) -> Option<int> {
    if u == "s"@ || u == "sec"@ || u == "secs"@ || u == "seconde"@ || u == "secondes"@ {
        Some(1)
    } else if u == "m"@ || u == "min"@ || u == "mins"@ || u == "minute"@ || u == "minutes"@ {
        Some(60)
    } else if u == "h"@ || u == "heure"@ || u == "heures"@ {
        Some(3600)
    } else if u == "j"@ || u == "d"@ || u == "jour"@ || u == "jours"@ {
        Some(86400)
    } else if u == "w"@ || u == "sem"@ || u == "semaine"@ || u == "semaines"@ {
        Some(604800)
    } else {
        None
    }
}

/// The seconds that a (normalized) duration text means: a positive
/// number, an optional unit (seconds when none), and a product that fits.
pub open spec fn duration_seconds(raw: Seq<char>) -> Option<i64> {
    if raw.len() == 0 {
        None
    } else {
        match scan_amount(raw) {
            None => None,
            Some(p) => match parse_i64_spec(p.0) {
                None => None,
                Some(v) => if v <= 0 {
                    None
                } else {
                    let unit = if p.1.len() == 0 {
                        "s"@
                    } else {
                        p.1
                    };
                    match unit_factor(unit) {
                        None => None,
                        Some(f) => if v * f <= i64::MAX {
                            Some((v * f) as i64)
                        } else {
                            None
                        },
                    }
                },
            },
        }
    }
}

proof fn lemma_scan_none_extends(s: Seq<char>, i: int)
    requires
        0 <= i <= s.len(),
        scan_amount(s.take(i)) is None,
    ensures
        scan_amount(s) is None,
    decreases s.len() - i,
{
    if i < s.len() {
        assert(s.take(i + 1).drop_last() =~= s.take(i));
        lemma_scan_none_extends(s, i + 1);
    } else {
        assert(s.take(i) =~= s);
    }
}

/// The number of seconds that a duration such as `10m`, `2 h`, `3jours`
/// or `45` means; `None` when the text is not a positive amount of a known
/// unit, or when the seconds do not fit in an `i64`.
pub fn parse_duration_to_seconds(input: &str) -> (r: Option<i64>)
    ensures
        r == duration_seconds(normalized(input@)),
        is_ascii_seq(input@) ==> r == duration_seconds(ascii_lower_seq(trim_seq(input@))),
{
    let raw = normalize(input);
    assert(is_ascii_seq(input@) ==> normalized(input@) == ascii_lower_seq(trim_seq(input@)));
    if raw.len() == 0 {
        return None;
    }
    let mut digits: Vec<char> = Vec::new();
    let mut suffix: Vec<char> = Vec::new();
    let mut i: usize = 0;
    assert(raw@.take(0) =~= Seq::<char>::empty());
    while i < raw.len()
        invariant
            i <= raw.len(),
            raw@ == normalized(input@),
            is_ascii_seq(input@) ==> normalized(input@) == ascii_lower_seq(trim_seq(input@)),
            raw@.len() > 0,
            scan_amount(raw@.take(i as int)) == Some((digits@, suffix@)),
        decreases raw.len() - i,
    {
        let c = raw[i];
        assert(raw@.take(i + 1).drop_last() =~= raw@.take(i as int));
        assert(raw@.take(i + 1).last() == c);
        if is_ascii_digit(c) {
            if suffix.len() > 0 {
                proof {
                    lemma_scan_none_extends(raw@, i + 1);
                }
                return None;
            }
            digits.push(c);
        } else if !is_whitespace(c) {
            suffix.push(c);
        }
        i += 1;
    }
    assert(raw@.take(raw.len() as int) =~= raw@);
    let value = match parse_i64_chars(&digits) {
        Some(v) => v,
        None => return None,
    };
    if value <= 0 {
        return None;
    }
    let factor: i64 = if suffix.len() == 0 {
        1
    } else if chars_are(&suffix, "s") || chars_are(&suffix, "sec") || chars_are(&suffix, "secs")
        || chars_are(&suffix, "seconde") || chars_are(&suffix, "secondes") {
        1
    } else if chars_are(&suffix, "m") || chars_are(&suffix, "min") || chars_are(&suffix, "mins")
        || chars_are(&suffix, "minute") || chars_are(&suffix, "minutes") {
        60
    } else if chars_are(&suffix, "h") || chars_are(&suffix, "heure") || chars_are(
        &suffix,
        "heures",
    ) {
        3600
    } else if chars_are(&suffix, "j") || chars_are(&suffix, "d") || chars_are(&suffix, "jour")
        || chars_are(&suffix, "jours") {
        86400
    } else if chars_are(&suffix, "w") || chars_are(&suffix, "sem") || chars_are(
        &suffix,
        "semaine",
    ) || chars_are(&suffix, "semaines") {
        604800
    } else {
        return None;
    };
    if value > i64::MAX / factor {
        assert(value * factor > i64::MAX) by (nonlinear_arith)
            requires
                value > i64::MAX / factor,
                factor > 0,
        ;
        return None;
    }
    assert(value * factor <= i64::MAX) by (nonlinear_arith)
        requires
            value <= i64::MAX / factor,
            factor > 0,
            value > 0,
    ;
    assert(value * factor >= 1) by (nonlinear_arith)
        requires
            factor >= 1,
            value >= 1,
    ;
    Some(value * factor)
}

/// The parts of a printed duration: days `j`, hours `h`, minutes `m` and
/// seconds `s`, each only when not zero (seconds also when all others
/// are); anything below one second prints as one second.
pub open spec fn duration_parts(seconds: int) -> Seq<Seq<char>> {
    let s = if seconds < 1 {
        1
    } else {
        seconds
    };
    let days = s / 86400;
    let r1 = s % 86400;
    let hours = r1 / 3600;
    let r2 = r1 % 3600;
    let minutes = r2 / 60;
    let secs = r2 % 60;
    let p1: Seq<Seq<char>> = if days > 0 {
        seq![decimal(days as nat) + "j"@]
    } else {
        Seq::empty()
    };
    let p2 = if hours > 0 {
        p1.push(decimal(hours as nat) + "h"@)
    } else {
        p1
    };
    let p3 = if minutes > 0 {
        p2.push(decimal(minutes as nat) + "m"@)
    } else {
        p2
    };
    if secs > 0 || p3.len() == 0 {
        p3.push(decimal(secs as nat) + "s"@)
    } else {
        p3
    }
}

/// A duration as the bot prints it, e.g. `1j 2h 5s`.
pub open spec fn duration_text(seconds: int) -> Seq<char> {
    join_seq(duration_parts(seconds), " "@)
}

fn amount_part(n: u64, unit: &str) -> (r: Vec<char>)
    ensures
        r@ == decimal(n as nat) + unit@,
{
    let mut v: Vec<char> = Vec::new();
    push_decimal(&mut v, n);
    extend_str(&mut v, unit);
    assert(Seq::<char>::empty() + decimal(n as nat) =~= decimal(n as nat));
    v
}

/// Prints a number of seconds as days, hours, minutes and seconds.
pub fn format_duration(seconds: i64) -> (r: String)
    ensures
        r@ == duration_text(seconds as int),
{
    let s: i64 = if seconds < 1 {
        1
    } else {
        seconds
    };
    let days = s / 86400;
    let r1 = s % 86400;
    let hours = r1 / 3600;
    let r2 = r1 % 3600;
    let minutes = r2 / 60;
    let secs = r2 % 60;
    let mut parts: Vec<Vec<char>> = Vec::new();
    let ghost p0 = views_of(parts@);
    assert(p0 =~= Seq::<Seq<char>>::empty());
    if days > 0 {
        parts.push(amount_part(days as u64, "j"));
    }
    let ghost p1 = views_of(parts@);
    if hours > 0 {
        parts.push(amount_part(hours as u64, "h"));
    }
    let ghost p2 = views_of(parts@);
    if minutes > 0 {
        parts.push(amount_part(minutes as u64, "m"));
    }
    let ghost p3 = views_of(parts@);
    if secs > 0 || parts.len() == 0 {
        parts.push(amount_part(secs as u64, "s"));
    }
    proof {
        let d = duration_parts(seconds as int);
        let sp = if (seconds as int) < 1 {
            1int
        } else {
            seconds as int
        };
        assert(sp == s);
        if days > 0 {
            assert(p1 =~= seq![decimal(days as nat) + "j"@]);
        } else {
            assert(p1 =~= Seq::<Seq<char>>::empty());
        }
        if hours > 0 {
            assert(p2 =~= p1.push(decimal(hours as nat) + "h"@));
        } else {
            assert(p2 =~= p1);
        }
        if minutes > 0 {
            assert(p3 =~= p2.push(decimal(minutes as nat) + "m"@));
        } else {
            assert(p3 =~= p2);
        }
        assert(views_of(parts@) =~= d);
    }
    let out = join_chars(&parts, " ");
    string_of(&out)
}

/// A letter that ends a printed part of a duration.
pub open spec fn is_unit_letter(c: char) -> bool {
    c == 'j' || c == 'h' || c == 'm' || c == 's'
}

/// A printed part of a duration: digits, then one unit letter.
pub open spec fn is_amount_text(p: Seq<char>) -> bool {
    &&& p.len() >= 2
    &&& all_digits(p.drop_last())
    &&& is_unit_letter(p.last())
}

proof fn lemma_scan_digits(d: Seq<char>)
    requires
        all_digits(d),
    ensures
        scan_amount(d) == Some((d, Seq::<char>::empty())),
    decreases d.len(),
{
    if d.len() == 0 {
        assert(d =~= Seq::<char>::empty());
    } else {
        assert forall|i: int| 0 <= i < d.drop_last().len() implies is_digit(
            #[trigger] d.drop_last()[i],
        ) by {
            assert(d.drop_last()[i] == d[i]);
        }
        lemma_scan_digits(d.drop_last());
        assert(is_digit(d[d.len() - 1]));
        assert(d.drop_last().push(d.last()) =~= d);
    }
}

proof fn lemma_scan_amount_text(p: Seq<char>)
    requires
        is_amount_text(p),
    ensures
        scan_amount(p) == Some((p.drop_last(), seq![p.last()])),
{
    lemma_scan_digits(p.drop_last());
    assert(Seq::<char>::empty().push(p.last()) =~= seq![p.last()]);
}

/// The facts of a printed duration that reading it back relies on.
proof fn lemma_join_amounts(parts: Seq<Seq<char>>)
    requires
        parts.len() >= 1,
        forall|i: int| 0 <= i < parts.len() ==> is_amount_text(#[trigger] parts[i]),
    ensures
        join_seq(parts, " "@).len() >= 2,
        is_digit(join_seq(parts, " "@)[0]),
        is_unit_letter(join_seq(parts, " "@).last()),
        forall|i: int|
            0 <= i < join_seq(parts, " "@).len() ==> is_digit(#[trigger] join_seq(parts, " "@)[i])
                || is_unit_letter(join_seq(parts, " "@)[i]) || join_seq(parts, " "@)[i] == ' ',
        join_seq(parts, " "@).contains(' ') == (parts.len() >= 2),
        parts.len() >= 2 ==> scan_amount(join_seq(parts, " "@)) is None,
        parts.len() == 1 ==> join_seq(parts, " "@) == parts[0],
    decreases parts.len(),
{
    reveal_strlit(" ");
    let t = join_seq(parts, " "@);
    if parts.len() == 1 {
        let p = parts[0];
        assert(is_amount_text(p));
        assert forall|i: int| 0 <= i < t.len() implies is_digit(#[trigger] t[i]) || is_unit_letter(
            t[i],
        ) || t[i] == ' ' by {
            if i < t.len() - 1 {
                assert(t[i] == p.drop_last()[i]);
            }
        }
        assert(is_digit(p.drop_last()[0]));
        assert forall|i: int| 0 <= i < t.len() implies t[i] != ' ' by {
            if i < t.len() - 1 {
                assert(t[i] == p.drop_last()[i]);
                assert(is_digit(p.drop_last()[i]));
            }
        }
    } else {
        let init = parts.drop_last();
        assert forall|i: int| 0 <= i < init.len() implies is_amount_text(#[trigger] init[i]) by {
            assert(init[i] == parts[i]);
        }
        lemma_join_amounts(init);
        let a = join_seq(init, " "@);
        let b = parts.last();
        assert(is_amount_text(parts[parts.len() - 1]));
        assert(t == a + " "@ + b);
        let n: int = a.len() as int;
        assert(t[0] == a[0]);
        assert(t.last() == b.last());
        assert forall|i: int| 0 <= i < t.len() implies is_digit(#[trigger] t[i]) || is_unit_letter(
            t[i],
        ) || t[i] == ' ' by {
            if i < n {
                assert(t[i] == a[i]);
            } else if i > n && i < t.len() - 1 {
                assert(t[i] == b[i - n - 1]);
                assert(b[i - n - 1] == b.drop_last()[i - n - 1]);
            }
        }
        assert(t[n] == ' ');
        // Reading stops at the digit that follows the first unit letter.
        let x1 = t.take(n + 1);
        let x2 = t.take(n + 2);
        assert(x1.drop_last() =~= a);
        assert(x1.last() == ' ');
        assert(x2.drop_last() =~= x1);
        assert(x2.last() == b[0]);
        assert(b[0] == b.drop_last()[0]);
        assert(is_digit(b[0]));
        assert(a.drop_last().len() >= 0);
        assert(a.last() == a[n - 1]);
        assert(is_unit_letter(a.last()));
        assert(!is_digit(a.last()) && !is_ws(a.last()));
        assert(is_ws(' '));
        match scan_amount(a.drop_last()) {
            None => {
                assert(scan_amount(a) is None);
                assert(scan_amount(x1) is None);
            },
            Some(p) => {
                assert(scan_amount(a) == Some((p.0, p.1.push(a.last()))));
                assert(scan_amount(x1) == scan_amount(a));
                let q = p.1.push(a.last());
                assert(q.len() > 0);
                assert(scan_amount(x1) == Some((p.0, q)));
            },
        }
        assert(scan_amount(x2) is None);
        lemma_scan_none_extends(t, n + 2);
    }
}

/// A duration printed in one part (no space) reads back as the seconds it
/// was printed from, at least one; a duration printed in several parts
/// does not read back. The printed text is ASCII, has no surrounding
/// space and no capital, so the parser reads it as it stands.
pub proof fn lemma_duration_round_trip(seconds: i64)
    ensures
        is_ascii_seq(duration_text(seconds as int)),
        ascii_lower_seq(trim_seq(duration_text(seconds as int))) == duration_text(seconds as int),
        !duration_text(seconds as int).contains(' ') ==> duration_seconds(
            duration_text(seconds as int),
        ) == Some(
            if seconds < 1 {
                1i64
            } else {
                seconds
            },
        ),
        duration_text(seconds as int).contains(' ') ==> duration_seconds(
            duration_text(seconds as int),
        ) is None,
{
    reveal_strlit("j");
    reveal_strlit("h");
    reveal_strlit("m");
    reveal_strlit("s");
    let s: int = if seconds < 1 {
        1
    } else {
        seconds as int
    };
    let days = s / 86400;
    let r1 = s % 86400;
    let hours = r1 / 3600;
    let r2 = r1 % 3600;
    let minutes = r2 / 60;
    let secs = r2 % 60;
    let parts = duration_parts(seconds as int);
    let t = duration_text(seconds as int);
    lemma_decimal_all_digits(days as nat);
    lemma_decimal_all_digits(hours as nat);
    lemma_decimal_all_digits(minutes as nat);
    lemma_decimal_all_digits(secs as nat);
    assert((decimal(days as nat) + "j"@).drop_last() =~= decimal(days as nat));
    assert((decimal(hours as nat) + "h"@).drop_last() =~= decimal(hours as nat));
    assert((decimal(minutes as nat) + "m"@).drop_last() =~= decimal(minutes as nat));
    assert((decimal(secs as nat) + "s"@).drop_last() =~= decimal(secs as nat));
    assert(is_amount_text(decimal(days as nat) + "j"@));
    assert(is_amount_text(decimal(hours as nat) + "h"@));
    assert(is_amount_text(decimal(minutes as nat) + "m"@));
    assert(is_amount_text(decimal(secs as nat) + "s"@));
    assert(parts.len() >= 1);
    assert forall|i: int| 0 <= i < parts.len() implies is_amount_text(#[trigger] parts[i]) by {}
    lemma_join_amounts(parts);
    assert(is_ascii_seq(t)) by {
        assert forall|i: int| 0 <= i < t.len() implies is_ascii_char(#[trigger] t[i]) by {
            assert(is_digit(t[i]) || is_unit_letter(t[i]) || t[i] == ' ');
        }
    }
    assert(trim_seq(t) == t) by {
        assert(!is_ws(t[0]));
        assert(trim_start_seq(t) == t);
        assert(!is_ws(t.last()));
        assert(trim_end_seq(t) == t);
    }
    assert(ascii_lower_seq(t) =~= t) by {
        assert forall|i: int| 0 <= i < t.len() implies ascii_lower_seq(t)[i] == t[i] by {
            assert(is_digit(t[i]) || is_unit_letter(t[i]) || t[i] == ' ');
        }
    }
    if parts.len() == 1 {
        let p = parts[0];
        assert(t == p);
        lemma_scan_amount_text(p);
        let k: int = if days > 0 {
            days
        } else if hours > 0 {
            hours
        } else if minutes > 0 {
            minutes
        } else {
            secs
        };
        let f: int = if days > 0 {
            86400
        } else if hours > 0 {
            3600
        } else if minutes > 0 {
            60
        } else {
            1
        };
        assert(p.drop_last() == decimal(k as nat));
        assert(k * f == s);
        assert(0 < k <= s);
        lemma_parse_i64_signed_decimal(k as i64);
        assert(signed_decimal(k) == decimal(k as nat));
        assert(parse_i64_spec(p.drop_last()) == Some(k as i64));
        reveal_strlit("sec");
        reveal_strlit("secs");
        reveal_strlit("seconde");
        reveal_strlit("secondes");
        reveal_strlit("min");
        reveal_strlit("mins");
        reveal_strlit("minute");
        reveal_strlit("minutes");
        reveal_strlit("heure");
        reveal_strlit("heures");
        reveal_strlit("d");
        reveal_strlit("jour");
        reveal_strlit("jours");
        reveal_strlit("w");
        reveal_strlit("sem");
        reveal_strlit("semaine");
        reveal_strlit("semaines");
        if days > 0 {
            assert(p == decimal(days as nat) + "j"@);
            assert(seq![p.last()] =~= "j"@);
        } else if hours > 0 {
            assert(p == decimal(hours as nat) + "h"@);
            assert(seq![p.last()] =~= "h"@);
        } else if minutes > 0 {
            assert(p == decimal(minutes as nat) + "m"@);
            assert(seq![p.last()] =~= "m"@);
        } else {
            assert(p == decimal(secs as nat) + "s"@);
            assert(seq![p.last()] =~= "s"@);
        }
        assert(unit_factor(seq![p.last()]) == Some(f));
    }
}

/// The characters of `s` that are not whitespace, in order.
pub open spec fn non_ws(s: Seq<char>) -> Seq<char>
    decreases s.len(),
{
    if s.len() == 0 {
        s
    } else if is_ws(s.last()) {
        non_ws(s.drop_last())
    } else {
        non_ws(s.drop_last()).push(s.last())
    }
}

proof fn lemma_non_ws_single(c: char)
    ensures
        non_ws(seq![c]) == (if is_ws(c) {
            Seq::<char>::empty()
        } else {
            seq![c]
        }),
{
    let s = seq![c];
    assert(s.drop_last() =~= Seq::<char>::empty());
    assert(s.last() == c);
    assert(non_ws(Seq::<char>::empty()) == Seq::<char>::empty());
    assert(Seq::<char>::empty().push(c) =~= s);
}

proof fn lemma_non_ws_concat(a: Seq<char>, b: Seq<char>)
    ensures
        non_ws(a + b) == non_ws(a) + non_ws(b),
    decreases b.len(),
{
    if b.len() == 0 {
        assert(a + b =~= a);
        assert(non_ws(a) + non_ws(b) =~= non_ws(a));
    } else {
        lemma_non_ws_concat(a, b.drop_last());
        assert((a + b).drop_last() =~= a + b.drop_last());
        assert((a + b).last() == b.last());
        if !is_ws(b.last()) {
            assert(non_ws(a) + non_ws(b.drop_last()).push(b.last()) =~= (non_ws(a) + non_ws(
                b.drop_last(),
            )).push(b.last()));
        }
    }
}

proof fn lemma_non_ws_idempotent(s: Seq<char>)
    ensures
        non_ws(non_ws(s)) == non_ws(s),
    decreases s.len(),
{
    if s.len() > 0 {
        lemma_non_ws_idempotent(s.drop_last());
        if !is_ws(s.last()) {
            let n = non_ws(s.drop_last());
            assert(n.push(s.last()).drop_last() =~= n);
        }
    }
}

proof fn lemma_non_ws_trim(s: Seq<char>)
    ensures
        non_ws(trim_start_seq(s)) == non_ws(s),
        non_ws(trim_end_seq(s)) == non_ws(s),
        non_ws(trim_seq(s)) == non_ws(s),
    decreases s.len(),
{
    if s.len() > 0 {
        lemma_non_ws_trim(s.drop_first());
        lemma_non_ws_trim(s.drop_last());
        if is_ws(s[0]) {
            lemma_non_ws_concat(seq![s[0]], s.drop_first());
            assert(seq![s[0]] + s.drop_first() =~= s);
            lemma_non_ws_single(s[0]);
            assert(Seq::<char>::empty() + non_ws(s.drop_first()) =~= non_ws(s.drop_first()));
        }
    }
    lemma_non_ws_trim_end_of(trim_start_seq(s));
}

proof fn lemma_non_ws_trim_end_of(s: Seq<char>)
    ensures
        non_ws(trim_end_seq(s)) == non_ws(s),
    decreases s.len(),
{
    if s.len() > 0 && is_ws(s.last()) {
        lemma_non_ws_trim_end_of(s.drop_last());
    }
}

proof fn lemma_non_ws_lower(s: Seq<char>)
    ensures
        non_ws(ascii_lower_seq(s)) == ascii_lower_seq(non_ws(s)),
    decreases s.len(),
{
    if s.len() > 0 {
        lemma_non_ws_lower(s.drop_last());
        assert(ascii_lower_seq(s).drop_last() =~= ascii_lower_seq(s.drop_last()));
        let c = s.last();
        assert(ascii_lower_seq(s).last() == ascii_lower(c));
        assert(is_ws(ascii_lower(c)) == is_ws(c));
        if !is_ws(c) {
            assert(ascii_lower_seq(non_ws(s.drop_last()).push(c)) =~= ascii_lower_seq(
                non_ws(s.drop_last()),
            ).push(ascii_lower(c)));
        }
    } else {
        assert(ascii_lower_seq(s) =~= s);
    }
}

proof fn lemma_scan_non_ws(s: Seq<char>)
    ensures
        scan_amount(s) == scan_amount(non_ws(s)),
    decreases s.len(),
{
    if s.len() > 0 {
        lemma_scan_non_ws(s.drop_last());
        if !is_ws(s.last()) {
            let n = non_ws(s.drop_last());
            assert(n.push(s.last()).drop_last() =~= n);
        }
    }
}

proof fn lemma_trimmed_starts_solid(s: Seq<char>)
    ensures
        trim_seq(s).len() > 0 ==> !is_ws(trim_seq(s)[0]),
    decreases s.len(),
{
    let a = trim_start_seq(s);
    lemma_trim_start_solid(s);
    lemma_trim_end_keeps_first(a);
}

proof fn lemma_trim_start_solid(s: Seq<char>)
    ensures
        trim_start_seq(s).len() > 0 ==> !is_ws(trim_start_seq(s)[0]),
    decreases s.len(),
{
    if s.len() > 0 && is_ws(s[0]) {
        lemma_trim_start_solid(s.drop_first());
    }
}

proof fn lemma_trim_end_keeps_first(s: Seq<char>)
    ensures
        trim_end_seq(s).len() > 0 ==> trim_end_seq(s)[0] == s[0],
        trim_end_seq(s).len() <= s.len(),
    decreases s.len(),
{
    if s.len() > 0 && is_ws(s.last()) {
        lemma_trim_end_keeps_first(s.drop_last());
    }
}

/// The duration read from two texts is the same when their lowercase
/// letters, digits and other non-space characters agree, in order.
proof fn lemma_duration_by_non_ws(x: Seq<char>, y: Seq<char>)
    requires
        non_ws(ascii_lower_seq(x)) == non_ws(ascii_lower_seq(y)),
    ensures
        duration_seconds(ascii_lower_seq(trim_seq(x))) == duration_seconds(
            ascii_lower_seq(trim_seq(y)),
        ),
{
    lemma_duration_non_ws_key(x);
    lemma_duration_non_ws_key(y);
}

proof fn lemma_duration_non_ws_key(x: Seq<char>)
    ensures
        non_ws(ascii_lower_seq(trim_seq(x))) == non_ws(ascii_lower_seq(x)),
        (ascii_lower_seq(trim_seq(x)).len() == 0) == (non_ws(ascii_lower_seq(x)).len() == 0),
        scan_amount(ascii_lower_seq(trim_seq(x))) == scan_amount(non_ws(ascii_lower_seq(x))),
{
    let t = trim_seq(x);
    let raw = ascii_lower_seq(t);
    lemma_non_ws_lower(t);
    lemma_non_ws_lower(x);
    lemma_non_ws_trim(x);
    lemma_scan_non_ws(raw);
    lemma_trimmed_starts_solid(x);
    if t.len() > 0 {
        assert(!is_ws(t[0]));
        lemma_non_ws_concat(seq![t[0]], t.drop_first());
        assert(seq![t[0]] + t.drop_first() =~= t);
        lemma_non_ws_single(t[0]);
        assert(non_ws(t).len() > 0);
        assert(ascii_lower_seq(non_ws(t)).len() > 0);
    } else {
        assert(non_ws(t) =~= t);
    }
}

/// A duration is read the same whatever the ASCII case of its letters,
/// with or without whitespace inside it, and with whitespace around it.
/// (The reader sees ASCII text this way: see `parse_duration_to_seconds`.)
pub proof fn lemma_duration_ignores_case_and_spaces(x: Seq<char>, y: Seq<char>)
    ensures
        eq_ignore_ascii_case_seq(x, y) ==> duration_seconds(ascii_lower_seq(trim_seq(y)))
            == duration_seconds(ascii_lower_seq(trim_seq(x))),
        duration_seconds(ascii_lower_seq(trim_seq(non_ws(x)))) == duration_seconds(
            ascii_lower_seq(trim_seq(x)),
        ),
        duration_seconds(ascii_lower_seq(trim_seq(seq![' '] + x + seq!['\t']))) == duration_seconds(
            ascii_lower_seq(trim_seq(x)),
        ),
        is_ascii_seq(x) ==> is_ascii_seq(non_ws(x)) && is_ascii_seq(seq![' '] + x + seq!['\t']),
{
    if eq_ignore_ascii_case_seq(x, y) {
        assert(ascii_lower_seq(x) =~= ascii_lower_seq(y));
        lemma_duration_by_non_ws(x, y);
    }
    let n = non_ws(x);
    lemma_non_ws_lower(n);
    lemma_non_ws_lower(x);
    lemma_non_ws_idempotent(x);
    lemma_duration_by_non_ws(n, x);
    let p = seq![' '] + x + seq!['\t'];
    assert(is_ws(' ') && is_ws('\t'));
    lemma_non_ws_concat(seq![' '] + x, seq!['\t']);
    lemma_non_ws_concat(seq![' '], x);
    lemma_non_ws_single(' ');
    lemma_non_ws_single('\t');
    assert(non_ws(p) =~= non_ws(x));
    lemma_non_ws_lower(p);
    lemma_duration_by_non_ws(p, x);
    if is_ascii_seq(x) {
        lemma_non_ws_ascii(x);
        assert forall|i: int| 0 <= i < p.len() implies is_ascii_char(#[trigger] p[i]) by {
            if 0 < i < p.len() - 1 {
                assert(p[i] == x[i - 1]);
            }
        }
    }
}

proof fn lemma_non_ws_ascii(s: Seq<char>)
    requires
        is_ascii_seq(s),
    ensures
        is_ascii_seq(non_ws(s)),
    decreases s.len(),
{
    if s.len() > 0 {
        assert forall|i: int| 0 <= i < s.drop_last().len() implies is_ascii_char(
            #[trigger] s.drop_last()[i],
        ) by {
            assert(s.drop_last()[i] == s[i]);
        }
        lemma_non_ws_ascii(s.drop_last());
        assert(is_ascii_char(s[s.len() - 1]));
    }
}

/// The `limit/duration` of a rate: the count before the first `/` (at
/// least one) and the duration after it, which must fit in an `i32`.
pub open spec fn rate_limit_of(s: Seq<char>) -> Option<(i32, i32)> {
    if exists|k: int| 0 <= k < s.len() && s[k] == '/' {
        let k = choose|k: int| 0 <= k < s.len() && s[k] == '/' && forall|j: int| 0 <= j < k ==> s[j] != '/';
        match parse_i32_spec(trim_seq(s.take(k))) {
            None => None,
            Some(l) => {
                let limit = if l < 1 {
                    1i32
                } else {
                    l
                };
                match duration_seconds(normalized(trim_seq(s.skip(k + 1)))) {
                    None => None,
                    Some(d) => if d > i32::MAX {
                        None
                    } else {
                        Some((limit, d as i32))
                    },
                }
            },
        }
    } else {
        None
    }
}

/// Reads a rate such as `5/10s`.
pub fn parse_rate_limit(input: &str) -> (r: Option<(i32, i32)>)
    ensures
        r == rate_limit_of(input@),
{
    let v = chars_of(input);
    let mut k: usize = 0;
    while k < v.len() && v[k] != '/'
        invariant
            k <= v.len(),
            v@ == input@,
            forall|j: int| 0 <= j < k ==> v@[j] != '/',
        decreases v.len() - k,
    {
        k += 1;
    }
    if k == v.len() {
        return None;
    }
    proof {
        let kk = choose|kk: int| 0 <= kk < input@.len() && input@[kk] == '/' && forall|j: int| 0 <= j < kk ==> input@[j] != '/';
        assert(0 <= k < input@.len() && input@[k as int] == '/' && forall|j: int| 0 <= j < k ==> input@[j] != '/');
        if kk < k {
            assert(input@[kk] != '/');
        } else if kk > k {
            assert(input@[k as int] != '/');
        }
        assert(kk == k);
    }
    let mut head: Vec<char> = Vec::new();
    let mut i: usize = 0;
    while i < k
        invariant
            i <= k < v.len(),
            head@ == v@.take(i as int),
        decreases k - i,
    {
        head.push(v[i]);
        assert(v@.take(i + 1) =~= v@.take(i as int).push(v@[i as int]));
        i += 1;
    }
    let mut rest: Vec<char> = Vec::new();
    let mut j: usize = k + 1;
    while j < v.len()
        invariant
            k < j <= v.len(),
            rest@ == v@.subrange(k + 1, j as int),
        decreases v.len() - j,
    {
        rest.push(v[j]);
        assert(v@.subrange(k + 1, j + 1) =~= v@.subrange(k + 1, j as int).push(v@[j as int]));
        j += 1;
    }
    assert(rest@ =~= v@.skip(k + 1));
    let limit_raw = match parse_i32_chars(&trim_chars(&head)) {
        Some(l) => l,
        None => return None,
    };
    let limit = if limit_raw < 1 {
        1
    } else {
        limit_raw
    };
    let rest_trimmed = string_of(&trim_chars(&rest));
    let duration = match parse_duration_to_seconds(rest_trimmed.as_str()) {
        Some(d) => d,
        None => return None,
    };
    if duration > 2147483647 {
        return None;
    }
    Some((limit, duration as i32))
}

// ---------------------------------------------------------------------------
// Spam window
// ---------------------------------------------------------------------------

/// The span of a spam window, in nanoseconds (at least one second).
pub open spec fn window_nanos(window_seconds: i32) -> int {
    (if window_seconds < 1 {
        1
    } else {
        window_seconds as int
    }) * 1_000_000_000
}

/// The message times left once those older than the window are dropped
/// from the front.
pub open spec fn prune(s: Seq<u64>, now: u64, window: int) -> Seq<u64>
    decreases s.len(),
{
    if s.len() > 0 && now - s[0] > window {
        prune(s.drop_first(), now, window)
    } else {
        s
    }
}

pub open spec fn sorted_times(s: Seq<u64>) -> bool {
    forall|i: int, j: int| 0 <= i <= j < s.len() ==> s[i] <= s[j]
}

/// The times of `s` within `window` of `now`, in order.
pub open spec fn recent_times(s: Seq<u64>, now: u64, window: int) -> Seq<u64>
    decreases s.len(),
{
    if s.len() == 0 {
        s
    } else if now - s[0] <= window {
        seq![s[0]] + recent_times(s.drop_first(), now, window)
    } else {
        recent_times(s.drop_first(), now, window)
    }
}

/// What a window that started empty holds after recording the times of
/// `history` in turn, each call with the same window.
pub open spec fn window_run(history: Seq<u64>, window: int) -> Seq<u64>
    decreases history.len(),
{
    if history.len() == 0 {
        history
    } else {
        prune(window_run(history.drop_last(), window).push(history.last()), history.last(), window)
    }
}

proof fn lemma_recent_all(s: Seq<u64>, now: u64, window: int)
    requires
        forall|i: int| 0 <= i < s.len() ==> now - #[trigger] s[i] <= window,
    ensures
        recent_times(s, now, window) == s,
    decreases s.len(),
{
    if s.len() > 0 {
        assert forall|i: int| 0 <= i < s.drop_first().len() implies now
            - #[trigger] s.drop_first()[i] <= window by {
            assert(s.drop_first()[i] == s[i + 1]);
        }
        lemma_recent_all(s.drop_first(), now, window);
        assert(seq![s[0]] + s.drop_first() =~= s);
    }
}

proof fn lemma_recent_step(s: Seq<u64>, prev: u64, now: u64, window: int)
    requires
        sorted_times(s),
        forall|i: int| 0 <= i < s.len() ==> #[trigger] s[i] <= prev,
        prev <= now,
        window >= 0,
    ensures
        prune(recent_times(s, prev, window).push(now), now, window) == recent_times(
            s.push(now),
            now,
            window,
        ),
    decreases s.len(),
{
    let t = s.push(now);
    if s.len() == 0 {
        assert(t.drop_first() =~= Seq::<u64>::empty());
        assert(seq![now] + Seq::<u64>::empty() =~= seq![now]);
        assert(recent_times(s, prev, window).push(now) =~= seq![now]);
        assert(seq![now].drop_first() =~= Seq::<u64>::empty());
        assert(seq![now][0] == now);
        assert(prune(seq![now], now, window) == seq![now]);
        assert(recent_times(t, now, window) == seq![now] + recent_times(t.drop_first(), now, window));
    } else {
        let a = s[0];
        let rest = s.drop_first();
        assert(t.drop_first() =~= rest.push(now));
        assert(t[0] == a);
        assert(sorted_times(rest)) by {
            assert forall|i: int, j: int| 0 <= i <= j < rest.len() implies rest[i] <= rest[j] by {
                assert(rest[i] == s[i + 1] && rest[j] == s[j + 1]);
            }
        }
        assert forall|i: int| 0 <= i < rest.len() implies #[trigger] rest[i] <= prev by {
            assert(rest[i] == s[i + 1]);
        }
        assert(a <= prev);
        if prev - a > window {
            lemma_recent_step(rest, prev, now, window);
            assert(recent_times(s, prev, window) == recent_times(rest, prev, window));
            assert(recent_times(t, now, window) == recent_times(rest.push(now), now, window));
        } else {
            let x = recent_times(s, prev, window).push(now);
            assert(x == (seq![a] + recent_times(rest, prev, window)).push(now));
            if now - a > window {
                assert(x.drop_first() =~= recent_times(rest, prev, window).push(now));
                assert(x[0] == a);
                assert(prune(x, now, window) == prune(x.drop_first(), now, window));
                lemma_recent_step(rest, prev, now, window);
                assert(recent_times(t, now, window) == recent_times(rest.push(now), now, window));
            } else {
                assert forall|i: int| 0 <= i < rest.len() implies prev - #[trigger] rest[i]
                    <= window by {
                    assert(rest[i] == s[i + 1]);
                    assert(s[0] <= s[i + 1]);
                }
                lemma_recent_all(rest, prev, window);
                let rn = rest.push(now);
                assert forall|i: int| 0 <= i < rn.len() implies now - #[trigger] rn[i]
                    <= window by {
                    if i < rest.len() {
                        assert(rn[i] == s[i + 1]);
                        assert(s[0] <= s[i + 1]);
                    }
                }
                lemma_recent_all(rn, now, window);
                assert(x =~= seq![a] + rn);
                assert(x[0] == a);
                assert(prune(x, now, window) == x);
                assert(recent_times(t, now, window) == seq![a] + recent_times(rn, now, window));
            }
        }
    }
}

/// A window that started empty and recorded the times of `history` in
/// order (each time no earlier than the one before), every call with the
/// same window, holds exactly the recorded times within the window of the
/// latest one. So each call of `record` answers whether more than the
/// limit of all the calls so far, itself included, fall within the window
/// of its time; the first call on a new window never does.
pub proof fn lemma_spam_window_run(history: Seq<u64>, window_seconds: i32)
    requires
        sorted_times(history),
        history.len() > 0,
    ensures
        window_run(history, window_nanos(window_seconds)) == recent_times(
            history,
            history.last(),
            window_nanos(window_seconds),
        ),
    decreases history.len(),
{
    let w = window_nanos(window_seconds);
    let p = history.drop_last();
    let now = history.last();
    assert(p.push(now) =~= history);
    assert forall|i: int| 0 <= i < p.len() implies #[trigger] p[i] <= now by {
        assert(p[i] == history[i]);
    }
    assert(sorted_times(p)) by {
        assert forall|i: int, j: int| 0 <= i <= j < p.len() implies p[i] <= p[j] by {
            assert(p[i] == history[i] && p[j] == history[j]);
        }
    }
    if p.len() == 0 {
        lemma_recent_step(p, now, now, w);
        assert(window_run(p, w) =~= Seq::<u64>::empty());
        assert(recent_times(p, now, w) =~= Seq::<u64>::empty());
    } else {
        lemma_spam_window_run(p, window_seconds);
        let prev = p.last();
        assert forall|i: int| 0 <= i < p.len() implies #[trigger] p[i] <= prev by {
            assert(p[i] == history[i] && prev == history[p.len() - 1]);
        }
        lemma_recent_step(p, prev, now, w);
    }
}

/// The recent message times of one member in one server, oldest first, on
/// a monotonic clock in nanoseconds.
pub struct SpamWindow {
    stamps: Vec<u64>,
}

impl SpamWindow {
    pub closed spec fn times(&self) -> Seq<u64> {
        self.stamps@
    }

    pub open spec fn wf(&self) -> bool {
        sorted_times(self.times())
    }

    /// A window with no message in it.
    pub fn new() -> (w: Self)
        ensures
            w.times() == Seq::<u64>::empty(),
            w.wf(),
    {
        SpamWindow { stamps: Vec::new() }
    }

    /// Records a message at `now`, forgets the messages older than the
    /// window, and tells whether more than `limit` (at least one) remain.
    pub fn record(&mut self, now: u64, limit: i32, window_seconds: i32) -> (hit: bool)
        requires
            old(self).wf(),
            forall|i: int| 0 <= i < old(self).times().len() ==> old(self).times()[i] <= now,
        ensures
            final(self).wf(),
            final(self).times() == prune(old(self).times().push(now), now, window_nanos(
                window_seconds,
            )),
            final(self).times().len() > 0,
            final(self).times().last() == now,
            forall|i: int|
                0 <= i < final(self).times().len() ==> now - final(self).times()[i]
                    <= window_nanos(window_seconds),
            hit == (final(self).times().len() > (if limit < 1 {
                1
            } else {
                limit as int
            })),
            forall|history: Seq<u64>|
                #[trigger] window_run(history, window_nanos(window_seconds)) == old(self).times()
                    ==> final(self).times() == window_run(
                    history.push(now),
                    window_nanos(window_seconds),
                ),
    {
        let secs: u64 = if window_seconds < 1 {
            1
        } else {
            window_seconds as u64
        };
        let window: u64 = secs * 1_000_000_000;
        let ghost w = window_nanos(window_seconds);
        assert(window == w);
        self.stamps.push(now);
        let ghost all = self.stamps@;
        assert(sorted_times(all));
        let n = self.stamps.len();
        let mut lo: usize = 0;
        assert(all.subrange(0, n as int) =~= all);
        while lo < n && now - self.stamps[lo] > window
            invariant
                lo < n,
                n == self.stamps.len(),
                self.stamps@ == all,
                all.len() == n,
                all[n - 1] == now,
                sorted_times(all),
                forall|i: int| 0 <= i < n ==> all[i] <= now,
                window == w,
                prune(all, now, w) == prune(all.subrange(lo as int, n as int), now, w),
            decreases n - lo,
        {
            assert(all.subrange(lo as int, n as int).drop_first() =~= all.subrange(
                lo + 1,
                n as int,
            ));
            lo += 1;
        }
        let mut kept: Vec<u64> = Vec::new();
        let mut i: usize = lo;
        while i < n
            invariant
                lo <= i <= n,
                n == self.stamps.len(),
                self.stamps@ == all,
                kept@ == all.subrange(lo as int, i as int),
            decreases n - i,
        {
            kept.push(self.stamps[i]);
            assert(all.subrange(lo as int, i + 1) =~= all.subrange(lo as int, i as int).push(
                all[i as int],
            ));
            i += 1;
        }
        assert(prune(all.subrange(lo as int, n as int), now, w) == all.subrange(lo as int, n as int));
        self.stamps = kept;
        assert forall|history: Seq<u64>|
            #[trigger] window_run(history, w) == old(self).times() implies self.times()
            == window_run(history.push(now), w) by {
            assert(history.push(now).drop_last() =~= history);
        }
        let bound: usize = if limit < 1 {
            1
        } else {
            limit as usize
        };
        self.stamps.len() > bound
    }
}

/// Whose spam window a message counts in: the bot, the server and the
/// member.
pub type SpamKey = (u64, u64, u64);

/// The times of the calls on `key`, in order, among calls of (key, time).
pub open spec fn times_on(calls: Seq<(SpamKey, u64)>, key: SpamKey) -> Seq<u64>
    decreases calls.len(),
{
    if calls.len() == 0 {
        Seq::empty()
    } else if calls.last().0 == key {
        times_on(calls.drop_last(), key).push(calls.last().1)
    } else {
        times_on(calls.drop_last(), key)
    }
}

/// What the window of `key` holds after a tracker that started empty
/// recorded `calls` in turn, each call with the same window.
pub open spec fn window_after_calls(calls: Seq<(SpamKey, u64)>, key: SpamKey, window: int) -> Seq<
    u64,
>
    decreases calls.len(),
{
    if calls.len() == 0 {
        Seq::empty()
    } else {
        let prev = window_after_calls(calls.drop_last(), key, window);
        if calls.last().0 == key {
            prune(prev.push(calls.last().1), calls.last().1, window)
        } else {
            prev
        }
    }
}

/// The window of a key after a run of calls is the window that the calls
/// on that key alone would leave: calls on other bots, servers or members
/// never change it. Two runs whose calls on a key come at the same times
/// leave that key the same window, so each call on it gets the same
/// answer.
pub proof fn lemma_spam_keys_independent(
    a: Seq<(SpamKey, u64)>,
    b: Seq<(SpamKey, u64)>,
    key: SpamKey,
    window: int,
)
    requires
        times_on(a, key) == times_on(b, key),
    ensures
        window_after_calls(a, key, window) == window_run(times_on(a, key), window),
        window_after_calls(a, key, window) == window_after_calls(b, key, window),
{
    lemma_window_after_calls(a, key, window);
    lemma_window_after_calls(b, key, window);
}

proof fn lemma_window_after_calls(calls: Seq<(SpamKey, u64)>, key: SpamKey, window: int)
    ensures
        window_after_calls(calls, key, window) == window_run(times_on(calls, key), window),
    decreases calls.len(),
{
    if calls.len() > 0 {
        lemma_window_after_calls(calls.drop_last(), key, window);
        if calls.last().0 == key {
            let t = times_on(calls, key);
            assert(t.drop_last() =~= times_on(calls.drop_last(), key));
            assert(t.last() == calls.last().1);
        }
    }
}

/// The spam windows of every member seen, one per key, and the latest time
/// recorded.
pub struct SpamTracker {
    keys: Vec<SpamKey>,
    windows: Vec<SpamWindow>,
    latest_time: u64,
}

impl SpamTracker {
    /// The times the window of `key` holds (none for a key not seen).
    pub closed spec fn times_of(&self, key: SpamKey) -> Seq<u64> {
        if exists|i: int| 0 <= i < self.keys@.len() && self.keys@[i] == key {
            self.windows@[choose|i: int| 0 <= i < self.keys@.len() && self.keys@[i] == key].times()
        } else {
            Seq::empty()
        }
    }

    /// The latest time recorded (zero before any).
    pub closed spec fn last_time(&self) -> u64 {
        self.latest_time
    }

    /// One window per key, each well formed and holding no time after the
    /// latest.
    pub closed spec fn wf(&self) -> bool {
        &&& self.keys@.len() == self.windows@.len()
        &&& forall|i: int, j: int|
            0 <= i < j < self.keys@.len() ==> self.keys@[i] != self.keys@[j]
        &&& forall|i: int| 0 <= i < self.windows@.len() ==> (#[trigger] self.windows@[i]).wf()
        &&& forall|i: int, t: int|
            0 <= i < self.windows@.len() && 0 <= t < self.windows@[i].times().len()
                ==> #[trigger] self.windows@[i].times()[t] <= self.latest_time
    }

    proof fn lemma_times_at(&self, i: int)
        requires
            self.wf(),
            0 <= i < self.keys@.len(),
        ensures
            self.times_of(self.keys@[i]) == self.windows@[i].times(),
    {
        let key = self.keys@[i];
        let j = choose|j: int| 0 <= j < self.keys@.len() && self.keys@[j] == key;
        if j != i {
            if j < i {
                assert(self.keys@[j] != self.keys@[i]);
            } else {
                assert(self.keys@[i] != self.keys@[j]);
            }
        }
    }

    /// A tracker that has seen no message.
    pub fn new() -> (t: Self)
        ensures
            t.wf(),
            t.last_time() == 0,
            forall|k: SpamKey| #[trigger] t.times_of(k) == Seq::<u64>::empty(),
    {
        SpamTracker { keys: Vec::new(), windows: Vec::new(), latest_time: 0 }
    }

    /// The latest time recorded.
    pub fn latest(&self) -> (r: u64)
        ensures
            r == self.last_time(),
    {
        self.latest_time
    }

    /// Records a message of `key` at `now` in that key's window only, and
    /// tells whether more than `limit` (at least one) of its messages fall
    /// within the window. The windows of other keys are left as they are,
    /// so their answers never depend on this key.
    pub fn record(&mut self, key: SpamKey, now: u64, limit: i32, window_seconds: i32) -> (hit:
        bool)
        requires
            old(self).wf(),
            old(self).last_time() <= now,
        ensures
            final(self).wf(),
            final(self).last_time() == now,
            final(self).times_of(key) == prune(
                old(self).times_of(key).push(now),
                now,
                window_nanos(window_seconds),
            ),
            forall|k: SpamKey|
                k != key ==> #[trigger] final(self).times_of(k) == old(self).times_of(k),
            hit == (final(self).times_of(key).len() > (if limit < 1 {
                1
            } else {
                limit as int
            })),
            forall|calls: Seq<(SpamKey, u64)>, k: SpamKey|
                #[trigger] window_after_calls(calls, k, window_nanos(window_seconds))
                    == old(self).times_of(k) ==> final(self).times_of(k) == window_after_calls(
                    calls.push((key, now)),
                    k,
                    window_nanos(window_seconds),
                ),
    {
        let mut i: usize = 0;
        while i < self.keys.len()
            invariant
                i <= self.keys@.len(),
                forall|j: int| 0 <= j < i ==> self.keys@[j] != key,
            ensures
                i <= self.keys@.len(),
                forall|j: int| 0 <= j < i ==> self.keys@[j] != key,
                i < self.keys@.len() ==> self.keys@[i as int] == key,
            decreases self.keys.len() - i,
        {
            let (a, b, c) = self.keys[i];
            if a == key.0 && b == key.1 && c == key.2 {
                break;
            }
            i += 1;
        }
        let ghost before = *self;
        if i == self.keys.len() {
            assert(!exists|j: int| 0 <= j < before.keys@.len() && before.keys@[j] == key);
            self.keys.push(key);
            self.windows.push(SpamWindow::new());
            proof {
                assert forall|k: SpamKey| k != key implies #[trigger] self.times_of(k)
                    == before.times_of(k) by {
                    if exists|j: int| 0 <= j < before.keys@.len() && before.keys@[j] == k {
                        let j = choose|j: int| 0 <= j < before.keys@.len() && before.keys@[j] == k;
                        before.lemma_times_at(j);
                        self.lemma_times_at(j);
                    } else {
                        assert(!exists|j: int| 0 <= j < self.keys@.len() && self.keys@[j] == k);
                    }
                }
                self.lemma_times_at(i as int);
                assert(self.times_of(key) == Seq::<u64>::empty());
            }
        } else {
            proof {
                before.lemma_times_at(i as int);
            }
        }
        let ghost mid = *self;
        proof {
            mid.lemma_times_at(i as int);
        }
        let mut w = self.windows.remove(i);
        assert(w.wf());
        assert(forall|t: int| 0 <= t < w.times().len() ==> w.times()[t] <= now) by {
            assert forall|t: int| 0 <= t < w.times().len() implies w.times()[t] <= now by {
                assert(mid.windows@[i as int].times()[t] <= mid.latest_time);
            }
        }
        let hit = w.record(now, limit, window_seconds);
        self.windows.insert(i, w);
        self.latest_time = now;
        proof {
            assert(self.windows@ =~= mid.windows@.update(i as int, w));
            assert(self.keys@ == mid.keys@);
            assert forall|j: int, t: int|
                0 <= j < self.windows@.len() && 0 <= t < self.windows@[j].times().len()
                    implies #[trigger] self.windows@[j].times()[t] <= self.latest_time by {
                if j == i {
                    let s = w.times();
                    assert(s[t] <= s[s.len() - 1]);
                } else {
                    assert(self.windows@[j] == mid.windows@[j]);
                }
            }
            assert forall|j: int| 0 <= j < self.windows@.len() implies (
            #[trigger] self.windows@[j]).wf() by {
                if j != i {
                    assert(self.windows@[j] == mid.windows@[j]);
                }
            }
            self.lemma_times_at(i as int);
            assert forall|k: SpamKey| k != key implies #[trigger] self.times_of(k)
                == mid.times_of(k) by {
                if exists|j: int| 0 <= j < mid.keys@.len() && mid.keys@[j] == k {
                    let j = choose|j: int| 0 <= j < mid.keys@.len() && mid.keys@[j] == k;
                    mid.lemma_times_at(j);
                    self.lemma_times_at(j);
                    assert(j != i);
                    assert(self.windows@[j] == mid.windows@[j]);
                }
            }
            assert forall|calls: Seq<(SpamKey, u64)>, k: SpamKey|
                #[trigger] window_after_calls(calls, k, window_nanos(window_seconds))
                    == before.times_of(k) implies self.times_of(k) == window_after_calls(
                calls.push((key, now)),
                k,
                window_nanos(window_seconds),
            ) by {
                assert(calls.push((key, now)).drop_last() =~= calls);
                assert(calls.push((key, now)).last() == (key, now));
            }
        }
        hit
    }
}

// ---------------------------------------------------------------------------
// Strike thresholds
// ---------------------------------------------------------------------------

/// What a punishment rule does once its threshold is reached.
#[derive(Clone, Copy, Debug, PartialEq, Eq, Structural)]
pub enum RuleSanction {
    Warn,
    Mute,
    Kick,
    Ban,
    Nothing,
}

/// The sanction a rule's (lowercased) sanction name means.
pub open spec fn rule_sanction_of(lower: Seq<char>) -> RuleSanction {
    if lower == "warn"@ {
        RuleSanction::Warn
    } else if lower == "mute"@ || lower == "timeout"@ {
        RuleSanction::Mute
    } else if lower == "kick"@ {
        RuleSanction::Kick
    } else if lower == "ban"@ {
        RuleSanction::Ban
    } else {
        RuleSanction::Nothing
    }
}

/// The sanction of a rule, whatever the case of its stored name.
pub fn rule_sanction(sanction: &str) -> (r: RuleSanction)
    ensures
        r == rule_sanction_of(str_lowercase(sanction@)),
{
    let v = chars_of(sanction);
    let lower = lowercase_chars(&v);
    if chars_are(&lower, "warn") {
        RuleSanction::Warn
    } else if chars_are(&lower, "mute") || chars_are(&lower, "timeout") {
        RuleSanction::Mute
    } else if chars_are(&lower, "kick") {
        RuleSanction::Kick
    } else if chars_are(&lower, "ban") {
        RuleSanction::Ban
    } else {
        RuleSanction::Nothing
    }
}

/// The kind under which a rule's sanction is recorded in the member's
/// history; nothing is recorded for an unknown sanction.
pub fn sanction_record_kind(s: RuleSanction) -> (r: Option<&'static str>)
    ensures
        opt_text(r) == match s {
            RuleSanction::Warn => Some("warn"@),
            RuleSanction::Mute => Some("tempmute"@),
            RuleSanction::Kick => Some("kick"@),
            RuleSanction::Ban => Some("ban"@),
            RuleSanction::Nothing => None,
        },
{
    match s {
        RuleSanction::Warn => Some("warn"),
        RuleSanction::Mute => Some("tempmute"),
        RuleSanction::Kick => Some("kick"),
        RuleSanction::Ban => Some("ban"),
        RuleSanction::Nothing => None,
    }
}

/// The longest mute a rule may give: 28 days.
pub open spec fn max_mute_seconds() -> int {
    2419200int
}

/// How long a rule mutes: its own duration, one hour when it has none,
/// kept between one second and 28 days.
pub fn mute_seconds(sanction_seconds: Option<i64>) -> (r: i64)
    ensures
        r == ({
            let d: int = match sanction_seconds {
                Some(v) => v as int,
                None => 3600,
            };
            if d < 1 {
                1
            } else if d > max_mute_seconds() {
                max_mute_seconds()
            } else {
                d
            }
        }),
{
    let d = match sanction_seconds {
        Some(v) => v,
        None => 3600,
    };
    if d < 1 {
        1
    } else if d > 2419200 {
        2419200
    } else {
        d
    }
}

/// The action reported after a rule ran.
pub open spec fn rule_outcome_text(
    s: RuleSanction,
    succeeded: bool,
    use_timeout: bool,
    seconds: int,
) -> Seq<char> {
    match s {
        RuleSanction::Warn => "warn"@,
        RuleSanction::Mute => if use_timeout {
            "timeout "@ + duration_text(seconds)
        } else {
            "mute role "@ + duration_text(seconds)
        },
        RuleSanction::Kick => if succeeded {
            "kick"@
        } else {
            "kick (echec)"@
        },
        RuleSanction::Ban => if succeeded {
            "ban"@
        } else {
            "ban (echec)"@
        },
        RuleSanction::Nothing => "aucune"@,
    }
}

/// Names the action a rule took: the sanction, the mute's length and
/// whether it was a timeout, or the failure of a kick or ban.
pub fn rule_outcome(s: RuleSanction, succeeded: bool, use_timeout: bool, seconds: i64) -> (r:
    String)
    ensures
        r@ == rule_outcome_text(s, succeeded, use_timeout, seconds as int),
{
    match s {
        RuleSanction::Warn => String::from_str("warn"),
        RuleSanction::Mute => {
            let head = if use_timeout {
                String::from_str("timeout ")
            } else {
                String::from_str("mute role ")
            };
            head.concat(format_duration(seconds).as_str())
        },
        RuleSanction::Kick => if succeeded {
            String::from_str("kick")
        } else {
            String::from_str("kick (echec)")
        },
        RuleSanction::Ban => if succeeded {
            String::from_str("ban")
        } else {
            String::from_str("ban (echec)")
        },
        RuleSanction::Nothing => String::from_str("aucune"),
    }
}

/// The strikes a violation adds: the trigger's configured count, one when
/// none is configured, never below zero.
pub fn violation_strikes(configured: Option<i32>) -> (r: i32)
    ensures
        r == match configured {
            Some(v) => if v < 0 {
                0
            } else {
                v
            },
            None => 1,
        },
{
    match configured {
        Some(v) => if v < 0 {
            0
        } else {
            v
        },
        None => 1,
    }
}

/// Whether a rule ran within its window before now (times in nanoseconds).
pub fn triggered_recently(now_nanos: i64, triggered_at_nanos: i64, window_seconds: i64) -> (r:
    bool)
    ensures
        r == (now_nanos - triggered_at_nanos < window_seconds * 1_000_000_000),
{
    let elapsed: i128 = now_nanos as i128 - triggered_at_nanos as i128;
    let window: i128 = window_seconds as i128 * 1_000_000_000i128;
    elapsed < window
}

/// What is known of one punishment rule when a member commits a
/// violation: the strikes counted in its window (`None` when the count
/// failed), its threshold, and whether it already ran within its window.
#[derive(Clone, Copy, Debug)]
pub struct RuleCheck {
    pub strikes_in_window: Option<i64>,
    pub threshold: i32,
    pub triggered_recently: bool,
}

/// A rule runs when its strikes were counted, reach its threshold, and it
/// did not already run within its window.
pub open spec fn rule_fires(c: RuleCheck) -> bool {
    match c.strikes_in_window {
        Some(total) => total >= c.threshold && !c.triggered_recently,
        None => false,
    }
}

/// The rule that runs after a violation: the rules are tried from the last
/// to the first, and the first that fires is the one; `None` when no rule
/// fires.
pub fn select_punish_rule(rules: &Vec<RuleCheck>) -> (r: Option<usize>)
    ensures
        match r {
            Some(i) => i < rules.len() && rule_fires(rules@[i as int]) && forall|j: int|
                i < j < rules.len() ==> !rule_fires(#[trigger] rules@[j]),
            None => forall|j: int| 0 <= j < rules.len() ==> !rule_fires(#[trigger] rules@[j]),
        },
{
    let mut k: usize = rules.len();
    while k > 0
        invariant
            k <= rules.len(),
            forall|j: int| k <= j < rules.len() ==> !rule_fires(#[trigger] rules@[j]),
        decreases k,
    {
        let c = rules[k - 1];
        let fires = match c.strikes_in_window {
            Some(total) => !(total < c.threshold as i64) && !c.triggered_recently,
            None => false,
        };
        if fires {
            return Some(k - 1);
        }
        k -= 1;
    }
    None
}

// ---------------------------------------------------------------------------
// Checks on each message
// ---------------------------------------------------------------------------

/// The automod settings of a server that the message checks read.
pub struct ModerationSettings {
    pub antispam_enabled: bool,
    pub antispam_limit: i32,
    pub antispam_window_seconds: i32,
    pub antilink_enabled: bool,
    pub antilink_mode: String,
    pub antimassmention_enabled: bool,
    pub antimassmention_limit: i32,
    pub badwords_enabled: bool,
    pub use_timeout: bool,
    pub public_commands_enabled: bool,
}

/// The rule a message broke.
#[derive(Clone, Copy, Debug, PartialEq, Eq, Structural)]
pub enum AutomodTrigger {
    Badword,
    MassMention,
    Link,
    Spam,
}

/// The outcome of the checks that need no memory of earlier messages.
#[derive(Clone, Copy, Debug, PartialEq, Eq, Structural)]
pub enum AutomodVerdict {
    /// The message broke a rule.
    Violation(AutomodTrigger),
    /// Nothing found so far; the spam window decides, with this limit and
    /// window.
    CheckSpam { limit: i32, window_seconds: i32 },
    /// Nothing found, and spam is not checked here.
    Clean,
}

pub open spec fn at_least_one(v: i32) -> i32 {
    if v < 1 {
        1
    } else {
        v
    }
}

pub open spec fn has_badword(content: Seq<char>, words: Seq<String>) -> bool {
    exists|i: int|
        0 <= i < words.len() && (#[trigger] words[i])@.len() > 0 && contains_seq(
            str_lowercase(content),
            words[i]@,
        )
}

/// The checks of one message, in order: banned words, mass mentions,
/// links (all links or only invitations, as the mode says), then spam.
pub open spec fn automod_verdict_spec(
    settings: ModerationSettings,
    spam_override: Option<Seq<char>>,
    link_override: Option<Seq<char>>,
    content: Seq<char>,
    badwords: Seq<String>,
    mention_count: nat,
) -> AutomodVerdict {
    if settings.badwords_enabled && has_badword(content, badwords) {
        AutomodVerdict::Violation(AutomodTrigger::Badword)
    } else if settings.antimassmention_enabled && mention_count >= at_least_one(
        settings.antimassmention_limit,
    ) {
        AutomodVerdict::Violation(AutomodTrigger::MassMention)
    } else if channel_override_spec(settings.antilink_enabled, link_override) && (if eq_ignore_ascii_case_seq(
        settings.antilink_mode@,
        "all"@,
    ) {
        has_any_link(content)
    } else {
        has_invite_link(content)
    }) {
        AutomodVerdict::Violation(AutomodTrigger::Link)
    } else if channel_override_spec(settings.antispam_enabled, spam_override) {
        AutomodVerdict::CheckSpam {
            limit: at_least_one(settings.antispam_limit),
            window_seconds: at_least_one(settings.antispam_window_seconds),
        }
    } else {
        AutomodVerdict::Clean
    }
}

fn any_badword(content: &str, badwords: &Vec<String>) -> (r: bool)
    ensures
        r == has_badword(content@, badwords@),
{
    let v = chars_of(content);
    let lower = lowercase_chars(&v);
    let mut i: usize = 0;
    while i < badwords.len()
        invariant
            i <= badwords.len(),
            lower@ == str_lowercase(content@),
            forall|j: int|
                0 <= j < i ==> !((#[trigger] badwords@[j])@.len() > 0 && contains_seq(
                    str_lowercase(content@),
                    badwords@[j]@,
                )),
        decreases badwords.len() - i,
    {
        let w = chars_of(badwords[i].as_str());
        if w.len() > 0 && contains_chars(&lower, &w) {
            return true;
        }
        i += 1;
    }
    false
}

/// Runs the checks of one message that need no memory of earlier messages.
pub fn automod_verdict(
    settings: &ModerationSettings,
    spam_override: Option<&str>,
    link_override: Option<&str>,
    content: &str,
    badwords: &Vec<String>,
    mention_count: usize,
) -> (r: AutomodVerdict)
    ensures
        r == automod_verdict_spec(
            *settings,
            opt_text(spam_override),
            opt_text(link_override),
            content@,
            badwords@,
            mention_count as nat,
        ),
{
    if settings.badwords_enabled && any_badword(content, badwords) {
        return AutomodVerdict::Violation(AutomodTrigger::Badword);
    }
    let mention_limit = if settings.antimassmention_limit < 1 {
        1
    } else {
        settings.antimassmention_limit
    };
    if settings.antimassmention_enabled && mention_count >= mention_limit as usize {
        return AutomodVerdict::Violation(AutomodTrigger::MassMention);
    }
    if apply_channel_override(settings.antilink_enabled, link_override) {
        let hit = if eq_ignore_ascii_case(settings.antilink_mode.as_str(), "all") {
            contains_any_link(content)
        } else {
            contains_invite_link(content)
        };
        if hit {
            return AutomodVerdict::Violation(AutomodTrigger::Link);
        }
    }
    if apply_channel_override(settings.antispam_enabled, spam_override) {
        let limit = if settings.antispam_limit < 1 {
            1
        } else {
            settings.antispam_limit
        };
        let window_seconds = if settings.antispam_window_seconds < 1 {
            1
        } else {
            settings.antispam_window_seconds
        };
        return AutomodVerdict::CheckSpam { limit, window_seconds };
    }
    AutomodVerdict::Clean
}

/// Runs the automatic moderation of one message of `key` (bot, server,
/// author) at `now`: first the checks that need no memory, then the
/// author's spam window, only when none of them fired and spam is checked
/// here. A message stopped by another check, or not checked for spam, is
/// not recorded: the tracker is left as it was, so the message never
/// counts toward later spam decisions.
pub fn automod_step(
    tracker: &mut SpamTracker,
    key: SpamKey,
    now: u64,
    settings: &ModerationSettings,
    spam_override: Option<&str>,
    link_override: Option<&str>,
    content: &str,
    badwords: &Vec<String>,
    mention_count: usize,
) -> (r: Option<AutomodTrigger>)
    requires
        old(tracker).wf(),
        old(tracker).last_time() <= now,
    ensures
        final(tracker).wf(),
        match automod_verdict_spec(
            *settings,
            opt_text(spam_override),
            opt_text(link_override),
            content@,
            badwords@,
            mention_count as nat,
        ) {
            AutomodVerdict::Violation(t) => r == Some(t) && *final(tracker) == *old(tracker),
            AutomodVerdict::Clean => r is None && *final(tracker) == *old(tracker),
            AutomodVerdict::CheckSpam { limit, window_seconds } => {
                &&& final(tracker).last_time() == now
                &&& final(tracker).times_of(key) == prune(
                    old(tracker).times_of(key).push(now),
                    now,
                    window_nanos(window_seconds),
                )
                &&& forall|k: SpamKey|
                    k != key ==> #[trigger] final(tracker).times_of(k) == old(tracker).times_of(k)
                &&& r == (if final(tracker).times_of(key).len() > at_least_one(limit) {
                    Some(AutomodTrigger::Spam)
                } else {
                    None
                })
            },
        },
{
    let verdict = automod_verdict(
        settings,
        spam_override,
        link_override,
        content,
        badwords,
        mention_count,
    );
    match verdict {
        AutomodVerdict::Violation(t) => Some(t),
        AutomodVerdict::Clean => None,
        AutomodVerdict::CheckSpam { limit, window_seconds } => {
            if tracker.record(key, now, limit, window_seconds) {
                Some(AutomodTrigger::Spam)
            } else {
                None
            }
        },
    }
}

/// The name under which a trigger is recorded.
pub fn trigger_name(t: AutomodTrigger) -> (r: &'static str)
    ensures
        r@ == match t {
            AutomodTrigger::Badword => "badword"@,
            AutomodTrigger::MassMention => "massmention"@,
            AutomodTrigger::Link => "link"@,
            AutomodTrigger::Spam => "spam"@,
        },
{
    match t {
        AutomodTrigger::Badword => "badword",
        AutomodTrigger::MassMention => "massmention",
        AutomodTrigger::Link => "link",
        AutomodTrigger::Spam => "spam",
    }
}

/// Why a message was removed, as told to the server.
pub fn violation_reason(t: AutomodTrigger) -> (r: &'static str)
    ensures
        r@ == match t {
            AutomodTrigger::Badword => "Message supprime: mot interdit detecte."@,
            AutomodTrigger::MassMention => "Message supprime: spam de mentions detecte."@,
            AutomodTrigger::Link => "Message supprime: lien interdit detecte."@,
            AutomodTrigger::Spam => "Message supprime: spam detecte."@,
        },
{
    match t {
        AutomodTrigger::Badword => "Message supprime: mot interdit detecte.",
        AutomodTrigger::MassMention => "Message supprime: spam de mentions detecte.",
        AutomodTrigger::Link => "Message supprime: lien interdit detecte.",
        AutomodTrigger::Spam => "Message supprime: spam detecte.",
    }
}

/// The report of a violation: the reason, the member, the trigger, the
/// member's profile, the strikes added and the action taken.
pub open spec fn violation_report_text(
    reason: Seq<char>,
    user_id: u64,
    trigger: Seq<char>,
    profile: Seq<char>,
    strikes: i32,
    action: Seq<char>,
) -> Seq<char> {
    reason + "\nMembre: <@"@ + decimal(user_id as nat) + ">\nTrigger: `"@ + trigger
        + "` \u{b7} Profil: `"@ + profile + "` \u{b7} Strikes: `+"@ + signed_decimal(
        strikes as int,
    ) + "`\nAction: `"@ + action + "`"@
}

/// Writes the report of a violation.
pub fn violation_report(
    reason: &str,
    user_id: u64,
    trigger: &str,
    profile: &str,
    strikes: i32,
    action: &str,
) -> (r: String)
    ensures
        r@ == violation_report_text(reason@, user_id, trigger@, profile@, strikes, action@),
{
    let mut v: Vec<char> = Vec::new();
    extend_str(&mut v, reason);
    extend_str(&mut v, "\nMembre: <@");
    push_decimal(&mut v, user_id);
    extend_str(&mut v, ">\nTrigger: `");
    extend_str(&mut v, trigger);
    extend_str(&mut v, "` \u{b7} Profil: `");
    extend_str(&mut v, profile);
    extend_str(&mut v, "` \u{b7} Strikes: `+");
    push_signed_decimal(&mut v, strikes as i64);
    extend_str(&mut v, "`\nAction: `");
    extend_str(&mut v, action);
    extend_str(&mut v, "`");
    assert(v@ =~= violation_report_text(reason@, user_id, trigger@, profile@, strikes, action@));
    string_of(&v)
}

/// Whether one of `roles` is the role `role` (ids compared as stored).
pub open spec fn has_role(roles: Seq<u64>, role: i64) -> bool {
    exists|i: int| 0 <= i < roles.len() && (#[trigger] roles[i]) as i64 == role
}

/// The profile of a member for the strike rules: `old` when the server
/// marks old members by a role and the member has it, `new` otherwise
/// (also when the settings or the member could not be read).
pub open spec fn member_profile_spec(
    settings: Option<(bool, Option<i64>)>,
    member_roles: Option<Seq<u64>>,
) -> Seq<char> {
    let old_member = match settings {
        Some((enabled, Some(role))) => enabled && match member_roles {
            Some(roles) => has_role(roles, role),
            None => false,
        },
        _ => false,
    };
    if old_member {
        "old"@
    } else {
        "new"@
    }
}

/// The profile of a member for the strike rules.
pub fn member_profile(settings: Option<(bool, Option<i64>)>, member_roles: Option<&Vec<u64>>) -> (r:
    &'static str)
    ensures
        r@ == member_profile_spec(
            settings,
            match member_roles {
                Some(v) => Some(v@),
                None => None,
            },
        ),
{
    let (enabled, role) = match settings {
        Some(s) => s,
        None => return "new",
    };
    if !enabled {
        return "new";
    }
    let role = match role {
        Some(r) => r,
        None => return "new",
    };
    let roles = match member_roles {
        Some(r) => r,
        None => return "new",
    };
    let mut i: usize = 0;
    while i < roles.len()
        invariant
            i <= roles.len(),
            settings == Some((true, Some(role))),
            member_roles == Some(roles),
            forall|j: int| 0 <= j < i ==> (#[trigger] roles@[j]) as i64 != role,
        decreases roles.len() - i,
    {
        if roles[i] as i64 == role {
            assert(has_role(roles@, role)) by {
                assert(roles@[i as int] as i64 == role);
            }
            return "old";
        }
        i += 1;
    }
    "new"
}

/// The checks of a message come in a fixed order, each stated over the
/// message itself:
/// - a banned word (non-empty, found in the lowercased text) is reported
///   first;
/// - then a mass mention: at least the limit (at least one) of mentions;
/// - then, when the link check is on in the channel (a channel `allow`
///   turns it off, `deny` on, anything else keeps the server's switch), a
///   link: in mode `all` (any ASCII case) any of `http://`, `https://`,
///   `www.` or `discord.gg/` in the lowercased text, otherwise one of the
///   invitation addresses `discord.gg/`, `discord.com/invite/` or
///   `discordapp.com/invite/`;
/// - then, when the spam check is on in the channel, the spam window is
///   asked, with the limit and window raised to at least one;
/// - otherwise the message is clean.
pub proof fn lemma_automod_verdict_order(
    settings: ModerationSettings,
    spam_override: Option<Seq<char>>,
    link_override: Option<Seq<char>>,
    content: Seq<char>,
    badwords: Seq<String>,
    mention_count: nat,
)
    ensures
        ({
            let v = automod_verdict_spec(
                settings,
                spam_override,
                link_override,
                content,
                badwords,
                mention_count,
            );
            let lower = str_lowercase(content);
            let badword = settings.badwords_enabled && exists|i: int|
                0 <= i < badwords.len() && (#[trigger] badwords[i])@.len() > 0 && contains_seq(
                    lower,
                    badwords[i]@,
                );
            let mass = settings.antimassmention_enabled && mention_count >= (
            if settings.antimassmention_limit < 1 {
                1
            } else {
                settings.antimassmention_limit as int
            });
            let link_on = match link_override {
                Some(m) => !eq_ignore_ascii_case_seq(m, "allow"@) && (eq_ignore_ascii_case_seq(
                    m,
                    "deny"@,
                ) || settings.antilink_enabled),
                None => settings.antilink_enabled,
            };
            let spam_on = match spam_override {
                Some(m) => !eq_ignore_ascii_case_seq(m, "allow"@) && (eq_ignore_ascii_case_seq(
                    m,
                    "deny"@,
                ) || settings.antispam_enabled),
                None => settings.antispam_enabled,
            };
            let all_mode = eq_ignore_ascii_case_seq(settings.antilink_mode@, "all"@);
            let any_link = contains_seq(lower, "http://"@) || contains_seq(lower, "https://"@)
                || contains_seq(lower, "www."@) || contains_seq(lower, "discord.gg/"@);
            let invite = contains_seq(lower, "discord.gg/"@) || contains_seq(
                lower,
                "discord.com/invite/"@,
            ) || contains_seq(lower, "discordapp.com/invite/"@);
            let link = link_on && (if all_mode {
                any_link
            } else {
                invite
            });
            &&& badword ==> v == AutomodVerdict::Violation(AutomodTrigger::Badword)
            &&& !badword && mass ==> v == AutomodVerdict::Violation(AutomodTrigger::MassMention)
            &&& !badword && !mass && link ==> v == AutomodVerdict::Violation(AutomodTrigger::Link)
            &&& !badword && !mass && !link && spam_on ==> v == AutomodVerdict::CheckSpam {
                limit: if settings.antispam_limit < 1 {
                    1
                } else {
                    settings.antispam_limit
                },
                window_seconds: if settings.antispam_window_seconds < 1 {
                    1
                } else {
                    settings.antispam_window_seconds
                },
            }
            &&& !badword && !mass && !link && !spam_on ==> v == AutomodVerdict::Clean
        }),
{
    reveal_strlit("allow");
    reveal_strlit("deny");
    assert("allow"@[0] != "deny"@[0]);
    let lower = str_lowercase(content);
    if settings.badwords_enabled && exists|i: int|
        0 <= i < badwords.len() && (#[trigger] badwords[i])@.len() > 0 && contains_seq(
            lower,
            badwords[i]@,
        ) {
        assert(has_badword(content, badwords));
    }
    match link_override {
        Some(m) => {
            if eq_ignore_ascii_case_seq(m, "allow"@) && eq_ignore_ascii_case_seq(m, "deny"@) {
                assert(ascii_lower(m[0]) == ascii_lower("allow"@[0]));
                assert(ascii_lower(m[0]) == ascii_lower("deny"@[0]));
            }
        },
        None => {},
    }
    match spam_override {
        Some(m) => {
            if eq_ignore_ascii_case_seq(m, "allow"@) && eq_ignore_ascii_case_seq(m, "deny"@) {
                assert(ascii_lower(m[0]) == ascii_lower("allow"@[0]));
                assert(ascii_lower(m[0]) == ascii_lower("deny"@[0]));
            }
        },
        None => {},
    }
}

/// A member who has the server's old-member role, wherever it stands in
/// the member's roles, is `old` when the marking is switched on.
pub proof fn lemma_member_profile_old(role: i64, roles: Seq<u64>, i: int)
    requires
        0 <= i < roles.len(),
        roles[i] as i64 == role,
    ensures
        member_profile_spec(Some((true, Some(role))), Some(roles)) == "old"@,
{
    assert(has_role(roles, role));
}

/// A member is `new` when the marking is off or has no role, when the
/// member's roles are unknown, or when none of them is the marking role.
pub proof fn lemma_member_profile_new(
    settings: Option<(bool, Option<i64>)>,
    member_roles: Option<Seq<u64>>,
)
    requires
        match settings {
            Some((true, Some(role))) => match member_roles {
                Some(roles) => forall|i: int| 0 <= i < roles.len() ==> (#[trigger] roles[i]) as i64
                    != role,
                None => true,
            },
            _ => true,
        },
    ensures
        member_profile_spec(settings, member_roles) == "new"@,
{
}

/// Whether a public command may run in a channel: always for an owner or
/// a command that needs a permission, and when the server's settings could
/// not be read; otherwise as the channel's override says, or the server's
/// switch.
pub open spec fn public_command_allowed_spec(
    is_owner: bool,
    required_permission: u8,
    public_commands_enabled: Option<bool>,
    override_mode: Option<Seq<char>>,
) -> bool {
    if is_owner || required_permission > 0 {
        true
    } else {
        match public_commands_enabled {
            None => true,
            Some(enabled) => match override_mode {
                Some(m) => if eq_ignore_ascii_case_seq(m, "allow"@) {
                    true
                } else if eq_ignore_ascii_case_seq(m, "deny"@) {
                    false
                } else {
                    enabled
                },
                None => enabled,
            },
        }
    }
}

/// Whether a public command may run in a channel.
pub fn public_command_allowed(
    is_owner: bool,
    required_permission: u8,
    public_commands_enabled: Option<bool>,
    override_mode: Option<&str>,
) -> (r: bool)
    ensures
        r == public_command_allowed_spec(
            is_owner,
            required_permission,
            public_commands_enabled,
            opt_text(override_mode),
        ),
{
    if is_owner || required_permission > 0 {
        return true;
    }
    match public_commands_enabled {
        None => true,
        Some(enabled) => {
            match override_mode {
                Some(mode) => {
                    if eq_ignore_ascii_case(mode, "allow") {
                        true
                    } else if eq_ignore_ascii_case(mode, "deny") {
                        false
                    } else {
                        enabled
                    }
                },
                None => enabled,
            }
        },
    }
}

/// `key` with spaces for underscores.
pub open spec fn underscores_to_spaces(key: Seq<char>) -> Seq<char> {
    Seq::new(key.len(), |i: int| if key[i] == '_' {
        ' '
    } else {
        key[i]
    })
}

/// The notice shown when a public command is turned off in a channel.
pub open spec fn public_command_notice_text(key: Seq<char>) -> Seq<char> {
    "La commande `"@ + underscores_to_spaces(key) + "` est desactivee dans ce salon."@
}

/// Writes the notice of a command turned off in a channel; the command's
/// key is shown with spaces for underscores.
pub fn public_command_notice(command_key: &str) -> (r: String)
    ensures
        r@ == public_command_notice_text(command_key@),
{
    let key = chars_of(command_key);
    let mut shown: Vec<char> = Vec::new();
    let mut i: usize = 0;
    while i < key.len()
        invariant
            i <= key.len(),
            key@ == command_key@,
            shown@ == underscores_to_spaces(key@.take(i as int)),
        decreases key.len() - i,
    {
        let c = if key[i] == '_' {
            ' '
        } else {
            key[i]
        };
        shown.push(c);
        assert(shown@ =~= underscores_to_spaces(key@.take(i + 1)));
        i += 1;
    }
    assert(key@.take(key.len() as int) =~= key@);
    let mut v: Vec<char> = Vec::new();
    extend_str(&mut v, "La commande `");
    extend_chars(&mut v, &shown);
    extend_str(&mut v, "` est desactivee dans ce salon.");
    assert(v@ =~= public_command_notice_text(command_key@));
    string_of(&v)
}


/// A punishment rule fires exactly when the member's strikes in its window
/// are known and reach its threshold, and it did not already run within
/// its window.
pub proof fn lemma_rule_fires(c: RuleCheck)
    ensures
        rule_fires(c) <==> (exists|total: i64|
            c.strikes_in_window == Some(total) && total >= c.threshold && !c.triggered_recently),
{
    if rule_fires(c) {
        let total = c.strikes_in_window->0;
        assert(c.strikes_in_window == Some(total));
    }
}

/// A public command always runs for the bot's owner and for commands that
/// need a permission; otherwise a channel set to `allow` runs it, one set
/// to `deny` refuses it, and else the server's switch decides (it runs when
/// the server has no settings).
pub proof fn lemma_public_command_rules(
    is_owner: bool,
    required_permission: u8,
    public_commands_enabled: Option<bool>,
    override_mode: Option<Seq<char>>,
)
    ensures
        ({
            let r = public_command_allowed_spec(
                is_owner,
                required_permission,
                public_commands_enabled,
                override_mode,
            );
            &&& is_owner || required_permission > 0 ==> r
            &&& !is_owner && required_permission == 0 && public_commands_enabled is None ==> r
            &&& !is_owner && required_permission == 0 && public_commands_enabled is Some
                && override_mode is Some && eq_ignore_ascii_case_seq(override_mode->0, "allow"@)
                ==> r
            &&& !is_owner && required_permission == 0 && public_commands_enabled is Some
                && override_mode is Some && eq_ignore_ascii_case_seq(override_mode->0, "deny"@)
                ==> !r
            &&& !is_owner && required_permission == 0 && public_commands_enabled is Some && (
            override_mode is None || (!eq_ignore_ascii_case_seq(override_mode->0, "allow"@)
                && !eq_ignore_ascii_case_seq(override_mode->0, "deny"@))) ==> r
                == public_commands_enabled->0
        }),
{
    reveal_strlit("allow");
    reveal_strlit("deny");
    match override_mode {
        Some(m) => {
            if eq_ignore_ascii_case_seq(m, "allow"@) && eq_ignore_ascii_case_seq(m, "deny"@) {
                assert(ascii_lower(m[0]) == ascii_lower("allow"@[0]));
                assert(ascii_lower(m[0]) == ascii_lower("deny"@[0]));
            }
        },
        None => {},
    }
}

} // verus!
