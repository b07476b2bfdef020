//! Moderation and administration commands: reasons, the list of a
//! member's sanctions, owners and the blacklist, log switches, the boost
//! embed settings and the channels with automatic publishing.
use vstd::prelude::*;

use crate::text::{
    chars_are, chars_of, decimal, extend_str, join_args, join_chars, join_seq, lowercase_chars,
    push_decimal, push_signed_decimal, signed_decimal, str_lowercase, str_views, string_of,
    views_of,
};
use crate::tools::{channel_mention_body, embed_color_spec, parse_channel_id, parse_embed_color};

verus! {

// ---------------------------------------------------------------------------
// Reasons
// ---------------------------------------------------------------------------

/// The reason given after the target: the other arguments joined by
/// spaces, or `default` when there are none.
pub open spec fn reason_spec(args: Seq<&str>, default: Seq<char>) -> Seq<char> {
    if args.len() > 1 {
        join_seq(str_views(args.skip(1)), " "@)
    } else {
        default
    }
}

/// The reason of a moderation command.
pub fn reason_from_args(args: &[&str], default: &str) -> (r: String)
    ensures
        r@ == reason_spec(args@, default@),
{
    if args.len() > 1 {
        join_args(args, 1, " ")
    } else {
        String::from_str(default)
    }
}

// ---------------------------------------------------------------------------
// Sanctions
// ---------------------------------------------------------------------------

/// A sanction as listed: its id, kind, reason, when it was given and when
/// it ends (Unix seconds), and whether it is still active.
pub struct SanctionRow {
    pub id: i64,
    pub kind: String,
    pub reason: String,
    pub created_at: i64,
    pub expires_at: Option<i64>,
    pub active: bool,
}

/// One line of the list of sanctions.
pub open spec fn sanction_line_spec(row: SanctionRow) -> Seq<char> {
    "`#"@ + signed_decimal(row.id as int) + "` `"@ + row.kind@ + "` "@ + (if row.active {
        "(active)"@
    } else {
        "(inactive)"@
    }) + " · <t:"@ + signed_decimal(row.created_at as int) + ":R>"@ + match row.expires_at {
        Some(e) => " · jusqu'à <t:"@ + signed_decimal(e as int) + ":R>"@,
        None => Seq::empty(),
    } + " · "@ + row.reason@
}

fn sanction_line(row: &SanctionRow) -> (r: Vec<char>)
    ensures
        r@ == sanction_line_spec(*row),
{
    let mut v: Vec<char> = Vec::new();
    extend_str(&mut v, "`#");
    push_signed_decimal(&mut v, row.id);
    extend_str(&mut v, "` `");
    extend_str(&mut v, row.kind.as_str());
    extend_str(&mut v, "` ");
    if row.active {
        extend_str(&mut v, "(active)");
    } else {
        extend_str(&mut v, "(inactive)");
    }
    extend_str(&mut v, " · <t:");
    push_signed_decimal(&mut v, row.created_at);
    extend_str(&mut v, ":R>");
    match row.expires_at {
        Some(e) => {
            extend_str(&mut v, " · jusqu'à <t:");
            push_signed_decimal(&mut v, e);
            extend_str(&mut v, ":R>");
        },
        None => {},
    }
    extend_str(&mut v, " · ");
    extend_str(&mut v, row.reason.as_str());
    v
}

/// The list of a member's sanctions, a line each, or a note that there
/// are none.
pub open spec fn sanctions_list_spec(rows: Seq<SanctionRow>) -> Seq<char> {
    if rows.len() == 0 {
        "Aucune sanction."@
    } else {
        join_seq(Seq::new(rows.len(), |i: int| sanction_line_spec(rows[i])), "\n"@)
    }
}

/// Writes the list of a member's sanctions.
pub fn sanctions_list_text(rows: &Vec<SanctionRow>) -> (r: String)
    ensures
        r@ == sanctions_list_spec(rows@),
{
    if rows.len() == 0 {
        return String::from_str("Aucune sanction.");
    }
    let mut lines: Vec<Vec<char>> = Vec::new();
    let mut i: usize = 0;
    while i < rows.len()
        invariant
            i <= rows.len(),
            lines@.len() == i,
            forall|k: int| 0 <= k < i ==> (#[trigger] lines@[k])@ == sanction_line_spec(rows@[k]),
        decreases rows.len() - i,
    {
        lines.push(sanction_line(&rows[i]));
        i += 1;
    }
    assert(views_of(lines@) =~= Seq::new(rows@.len(), |k: int| sanction_line_spec(rows@[k])));
    let joined = join_chars(&lines, "\n");
    string_of(&joined)
}

// ---------------------------------------------------------------------------
// Owners and blacklist
// ---------------------------------------------------------------------------

/// A mention `<@id>`.
pub open spec fn user_mention(id: int) -> Seq<char> {
    "<@"@ + signed_decimal(id) + ">"@
}

/// The lines of the list of the bot's owners: the application's owner
/// first, marked, then the owners added.
pub open spec fn owner_lines_spec(app_owner: Option<u64>, extra: Seq<i64>) -> Seq<Seq<char>> {
    let rest = Seq::new(extra.len(), |i: int| user_mention(extra[i] as int));
    match app_owner {
        Some(o) => seq![user_mention(o as int) + " (owner application)"@] + rest,
        None => rest,
    }
}

/// Writes the lines of the list of the bot's owners.
pub fn owner_lines(app_owner: Option<u64>, extra: &Vec<i64>) -> (r: Vec<String>)
    ensures
        r@.len() == owner_lines_spec(app_owner, extra@).len(),
        forall|i: int| 0 <= i < r@.len() ==> (#[trigger] r@[i])@ == owner_lines_spec(
            app_owner,
            extra@,
        )[i],
{
    let mut out: Vec<String> = Vec::new();
    let ghost lines = owner_lines_spec(app_owner, extra@);
    let first: usize = match app_owner {
        Some(o) => {
            let mut v: Vec<char> = Vec::new();
            extend_str(&mut v, "<@");
            push_decimal(&mut v, o);
            extend_str(&mut v, ">");
            extend_str(&mut v, " (owner application)");
            assert(signed_decimal(o as int) == decimal(o as nat));
            out.push(string_of(&v));
            1
        },
        None => 0,
    };
    let mut i: usize = 0;
    while i < extra.len()
        invariant
            i <= extra.len(),
            lines == owner_lines_spec(app_owner, extra@),
            first == (if app_owner is Some {
                1usize
            } else {
                0usize
            }),
            out@.len() == first + i,
            forall|k: int| 0 <= k < out@.len() ==> (#[trigger] out@[k])@ == lines[k],
        decreases extra.len() - i,
    {
        let mut v: Vec<char> = Vec::new();
        extend_str(&mut v, "<@");
        push_signed_decimal(&mut v, extra[i]);
        extend_str(&mut v, ">");
        out.push(string_of(&v));
        i += 1;
    }
    out
}

/// The application's owner cannot be removed from the owners.
pub fn can_remove_owner(target: u64, app_owner: Option<u64>) -> (r: bool)
    ensures
        r == (app_owner != Some(target)),
{
    match app_owner {
        Some(o) => o != target,
        None => true,
    }
}

/// The answer to removing an owner: removed, or was not one.
pub fn unowner_text(target: u64, removed: u64) -> (r: String)
    ensures
        r@ == "<@"@ + decimal(target as nat) + (if removed > 0 {
            "> n'est plus owner."@
        } else {
            "> n'était pas owner."@
        }),
{
    let mut v: Vec<char> = Vec::new();
    extend_str(&mut v, "<@");
    push_decimal(&mut v, target);
    if removed > 0 {
        extend_str(&mut v, "> n'est plus owner.");
    } else {
        extend_str(&mut v, "> n'était pas owner.");
    }
    string_of(&v)
}

/// The answer to removing a member from the blacklist: removed, or was
/// not on it.
pub fn unblacklist_text(target: u64, removed: u64) -> (r: String)
    ensures
        r@ == "<@"@ + decimal(target as nat) + (if removed > 0 {
            "> retiré de la blacklist."@
        } else {
            "> n'était pas blacklisté."@
        }),
{
    let mut v: Vec<char> = Vec::new();
    extend_str(&mut v, "<@");
    push_decimal(&mut v, target);
    if removed > 0 {
        extend_str(&mut v, "> retiré de la blacklist.");
    } else {
        extend_str(&mut v, "> n'était pas blacklisté.");
    }
    string_of(&v)
}

/// How the bans of a blacklisting went: how many servers banned the
/// member, and how many failed.
pub fn ban_results_text(ok: u64, failed: u64) -> (r: String)
    ensures
        r@ == decimal(ok as nat) + " réussis · "@ + decimal(failed as nat) + " échecs"@,
{
    let mut v: Vec<char> = Vec::new();
    push_decimal(&mut v, ok);
    extend_str(&mut v, " réussis · ");
    push_decimal(&mut v, failed);
    extend_str(&mut v, " échecs");
    string_of(&v)
}

/// Who blacklisted a member: a mention, or `Inconnu`.
pub fn added_by_text(added_by: Option<i64>) -> (r: String)
    ensures
        r@ == match added_by {
            Some(id) => user_mention(id as int),
            None => "Inconnu"@,
        },
{
    match added_by {
        Some(id) => {
            let mut v: Vec<char> = Vec::new();
            extend_str(&mut v, "<@");
            push_signed_decimal(&mut v, id);
            extend_str(&mut v, ">");
            string_of(&v)
        },
        None => String::from_str("Inconnu"),
    }
}

// ---------------------------------------------------------------------------
// Log switches
// ---------------------------------------------------------------------------

/// What a log command (`boostlog`, `messagelog`) asks for.
#[derive(Clone, Copy, Debug, PartialEq, Eq, Structural)]
pub enum LogSwitch {
    /// Turn the log on (in the channel named after `on`, else here).
    On,
    /// Turn the log off.
    Off,
    /// No argument, or another word: show the usage.
    Usage,
}

/// How a log command is read: `on` or `off`, in any case.
pub open spec fn log_switch_spec(args: Seq<&str>) -> LogSwitch {
    if args.len() == 0 {
        LogSwitch::Usage
    } else if str_lowercase(args[0]@) == "on"@ {
        LogSwitch::On
    } else if str_lowercase(args[0]@) == "off"@ {
        LogSwitch::Off
    } else {
        LogSwitch::Usage
    }
}

/// Reads the arguments of a log command.
pub fn log_switch(args: &[&str]) -> (r: LogSwitch)
    ensures
        r == log_switch_spec(args@),
{
    if args.len() == 0 {
        return LogSwitch::Usage;
    }
    let v = chars_of(args[0]);
    let lower = lowercase_chars(&v);
    if chars_are(&lower, "on") {
        LogSwitch::On
    } else if chars_are(&lower, "off") {
        LogSwitch::Off
    } else {
        LogSwitch::Usage
    }
}

/// How `raidlog` is read: `off` (in any ASCII case) turns it off, anything
/// else turns it on.
pub fn raidlog_switch(args: &[&str]) -> (r: LogSwitch)
    ensures
        r == (if args@.len() > 0 && crate::text::eq_ignore_ascii_case_seq(args@[0]@, "off"@) {
            LogSwitch::Off
        } else {
            LogSwitch::On
        }),
{
    if args.len() > 0 && crate::text::eq_ignore_ascii_case(args[0], "off") {
        LogSwitch::Off
    } else {
        LogSwitch::On
    }
}

/// The answer once a log is on: in which channel.
pub fn log_enabled_text(channel: Option<u64>) -> (r: String)
    ensures
        r@ == "Active dans "@ + match channel {
            Some(c) => "<#"@ + decimal(c as nat) + ">"@,
            None => "ce salon"@,
        } + "."@,
{
    let mut v: Vec<char> = Vec::new();
    extend_str(&mut v, "Active dans ");
    match channel {
        Some(c) => {
            extend_str(&mut v, "<#");
            push_decimal(&mut v, c);
            extend_str(&mut v, ">");
        },
        None => extend_str(&mut v, "ce salon"),
    }
    extend_str(&mut v, ".");
    string_of(&v)
}

// ---------------------------------------------------------------------------
// Boost embed
// ---------------------------------------------------------------------------

/// What `set boostembed` changes.
#[derive(Debug, PartialEq, Eq)]
pub enum BoostEmbedUpdate {
    /// Fewer than two arguments.
    Usage,
    /// The title.
    Title(String),
    /// The description.
    Description(String),
    /// The colour, stored as a signed 32-bit number; none when the value
    /// is no colour (nothing is stored).
    Color(Option<i32>),
    /// Another field: nothing is stored.
    Other,
}

/// How `set boostembed <field> <value...>` is read: the field in any case,
/// the value the other arguments joined by spaces; a colour in hexadecimal
/// (`#` and `0x` allowed), kept as the signed number of the same bits.
pub open spec fn boost_embed_update_spec(args: Seq<&str>, r: BoostEmbedUpdate) -> bool {
    if args.len() < 2 {
        r is Usage
    } else {
        let field = str_lowercase(args[0]@);
        let value = join_seq(str_views(args.skip(1)), " "@);
        if field == "title"@ {
            r matches BoostEmbedUpdate::Title(t) && t@ == value
        } else if field == "description"@ {
            r matches BoostEmbedUpdate::Description(d) && d@ == value
        } else if field == "color"@ {
            r == BoostEmbedUpdate::Color(
                match embed_color_spec(value) {
                    Some(c) => Some(c as i32),
                    None => None,
                },
            )
        } else {
            r is Other
        }
    }
}

/// Reads the arguments of `set boostembed`.
pub fn boost_embed_update(args: &[&str]) -> (r: BoostEmbedUpdate)
    ensures
        boost_embed_update_spec(args@, r),
{
    if args.len() < 2 {
        return BoostEmbedUpdate::Usage;
    }
    let v = chars_of(args[0]);
    let field = lowercase_chars(&v);
    let value = join_args(args, 1, " ");
    if chars_are(&field, "title") {
        BoostEmbedUpdate::Title(value)
    } else if chars_are(&field, "description") {
        BoostEmbedUpdate::Description(value)
    } else if chars_are(&field, "color") {
        match parse_embed_color(value.as_str()) {
            Some(c) => BoostEmbedUpdate::Color(Some(c as i32)),
            None => BoostEmbedUpdate::Color(None),
        }
    } else {
        BoostEmbedUpdate::Other
    }
}

// ---------------------------------------------------------------------------
// Automatic publishing
// ---------------------------------------------------------------------------

/// The channel a command acts on: the one named in its first argument,
/// else the channel it was sent in.
pub fn channel_arg_or(args: &[&str], current: u64) -> (r: u64)
    ensures
        r == (if args@.len() > 0 {
            match crate::text::parse_u64_spec(channel_mention_body(args@[0]@)) {
                Some(c) => c,
                None => current,
            }
        } else {
            current
        }),
{
    if args.len() > 0 {
        match parse_channel_id(args[0]) {
            Some(c) => c,
            None => current,
        }
    } else {
        current
    }
}

/// The channels with automatic publishing, a mention a line, or a note
/// that there are none.
pub open spec fn autopublish_list_spec(channels: Seq<i64>) -> Seq<char> {
    if channels.len() == 0 {
        "Aucun salon d'annonces configuré."@
    } else {
        join_seq(
            Seq::new(channels.len(), |i: int| "<#"@ + signed_decimal(channels[i] as int) + ">"@),
            "\n"@,
        )
    }
}

/// Writes the list of the channels with automatic publishing.
pub fn autopublish_list_text(channels: &Vec<i64>) -> (r: String)
    ensures
        r@ == autopublish_list_spec(channels@),
{
    if channels.len() == 0 {
        return String::from_str("Aucun salon d'annonces configuré.");
    }
    let mut lines: Vec<Vec<char>> = Vec::new();
    let mut i: usize = 0;
    while i < channels.len()
        invariant
            i <= channels.len(),
            lines@.len() == i,
            forall|k: int|
                0 <= k < i ==> (#[trigger] lines@[k])@ == "<#"@ + signed_decimal(
                    channels@[k] as int,
                ) + ">"@,
        decreases channels.len() - i,
    {
        let mut v: Vec<char> = Vec::new();
        extend_str(&mut v, "<#");
        push_signed_decimal(&mut v, channels[i]);
        extend_str(&mut v, ">");
        lines.push(v);
        i += 1;
    }
    assert(views_of(lines@) =~= Seq::new(
        channels@.len(),
        |k: int| "<#"@ + signed_decimal(channels@[k] as int) + ">"@,
    ));
    let joined = join_chars(&lines, "\n");
    string_of(&joined)
}


/// A log command turns the log on with `on` and off with `off` (once
/// lowercased), and shows its usage with no argument or any other word.
pub proof fn lemma_log_switch_words(args: Seq<&str>)
    ensures
        args.len() == 0 ==> log_switch_spec(args) == LogSwitch::Usage,
        args.len() > 0 && str_lowercase(args[0]@) == "on"@ ==> log_switch_spec(args)
            == LogSwitch::On,
        args.len() > 0 && str_lowercase(args[0]@) == "off"@ ==> log_switch_spec(args)
            == LogSwitch::Off,
        args.len() > 0 && str_lowercase(args[0]@) != "on"@ && str_lowercase(args[0]@) != "off"@
            ==> log_switch_spec(args) == LogSwitch::Usage,
{
    reveal_strlit("on");
    reveal_strlit("off");
    assert("on"@.len() != "off"@.len());
}

/// `set boostembed <field> <value...>` sets the title with `title`, the
/// description with `description` and the colour with `color` (the field
/// once lowercased), the value being the other arguments joined by spaces.
pub proof fn lemma_boost_embed_fields(args: Seq<&str>, r: BoostEmbedUpdate)
    requires
        boost_embed_update_spec(args, r),
    ensures
        args.len() < 2 ==> r is Usage,
        args.len() >= 2 && str_lowercase(args[0]@) == "title"@ ==> (r matches BoostEmbedUpdate::Title(
            t,
        ) && t@ == join_seq(str_views(args.skip(1)), " "@)),
        args.len() >= 2 && str_lowercase(args[0]@) == "description"@ ==> (
        r matches BoostEmbedUpdate::Description(d) && d@ == join_seq(str_views(args.skip(1)), " "@)),
        args.len() >= 2 && str_lowercase(args[0]@) == "color"@ ==> r is Color,
{
    reveal_strlit("title");
    reveal_strlit("description");
    reveal_strlit("color");
    assert("title"@.len() != "description"@.len());
    assert("title"@[0] != "color"@[0]);
    assert("description"@.len() != "color"@.len());
}

} // verus!
