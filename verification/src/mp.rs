//! Private messages sent by the bot on behalf of a member: what an `mp`
//! command asks for, the message as it is sent, and the answers shown.
use vstd::prelude::*;

use crate::components::{
    mention_body, mp_sent_split, parse_mp_sent_custom_id, parse_user_id, requested_page,
};
use crate::text::{
    chars_are, chars_of, decimal, eq_ignore_ascii_case, eq_ignore_ascii_case_seq, extend_str,
    join_args, join_seq, lowercase_chars, parse_i64_chars, parse_i64_spec, parse_u64_spec,
    push_decimal, push_signed_decimal, signed_decimal, str_lowercase, str_views, string_of,
};

verus! {

/// What an `mp` command asks for.
#[derive(Debug, PartialEq, Eq)]
pub enum MpRequest {
    /// `settings`: show whether private messages are on.
    ShowSettings,
    /// `settings on` or `settings off`.
    SetEnabled(bool),
    /// `settings` with a word that is neither.
    SettingsUsage,
    /// `sent [page]`: a page of the messages sent.
    Sent(i64),
    /// `delete` without an entry.
    DeleteUsage,
    /// `delete` with an entry that is not a number.
    InvalidId,
    /// `delete <entry>`.
    Delete(i64),
    /// Fewer than two arguments.
    SendUsage,
    /// `<member> <message...>`: the member (when the argument names one)
    /// and the message.
    Send(Option<u64>, String),
}

/// The switch position an `mp settings` word names (lowercased).
pub open spec fn mp_switch_of(lower: Seq<char>) -> Option<bool> {
    if lower == "on"@ || lower == "true"@ || lower == "yes"@ {
        Some(true)
    } else if lower == "off"@ || lower == "false"@ || lower == "no"@ {
        Some(false)
    } else {
        None
    }
}

/// How an `mp` command is read. Its first word (in any ASCII case) is
/// `settings`, `sent`, `delete` or `del`; anything else sends a message:
/// the member first, the message after.
pub open spec fn mp_request_spec(args: Seq<&str>, r: MpRequest) -> bool {
    if args.len() > 0 && eq_ignore_ascii_case_seq(args[0]@, "settings"@) {
        if args.len() == 1 {
            r is ShowSettings
        } else {
            match mp_switch_of(str_lowercase(args[1]@)) {
                Some(on) => r == MpRequest::SetEnabled(on),
                None => r is SettingsUsage,
            }
        }
    } else if args.len() > 0 && eq_ignore_ascii_case_seq(args[0]@, "sent"@) {
        r == MpRequest::Sent(
            if args.len() > 1 {
                match parse_i64_spec(args[1]@) {
                    Some(p) => if p >= 1 {
                        p
                    } else {
                        1
                    },
                    None => 1,
                }
            } else {
                1
            },
        )
    } else if args.len() > 0 && (eq_ignore_ascii_case_seq(args[0]@, "delete"@)
        || eq_ignore_ascii_case_seq(args[0]@, "del"@)) {
        if args.len() < 2 {
            r is DeleteUsage
        } else {
            match parse_i64_spec(args[1]@) {
                Some(id) => r == MpRequest::Delete(id),
                None => r is InvalidId,
            }
        }
    } else if args.len() < 2 {
        r is SendUsage
    } else {
        r matches MpRequest::Send(target, content) && target == parse_u64_spec(
            mention_body(args[0]@),
        ) && content@ == join_seq(str_views(args.skip(1)), " "@)
    }
}

/// Reads the arguments of an `mp` command.
pub fn mp_request(args: &[&str]) -> (r: MpRequest)
    ensures
        mp_request_spec(args@, r),
{
    if args.len() > 0 && eq_ignore_ascii_case(args[0], "settings") {
        if args.len() == 1 {
            return MpRequest::ShowSettings;
        }
        let word = chars_of(args[1]);
        let lower = lowercase_chars(&word);
        if chars_are(&lower, "on") || chars_are(&lower, "true") || chars_are(&lower, "yes") {
            return MpRequest::SetEnabled(true);
        } else if chars_are(&lower, "off") || chars_are(&lower, "false") || chars_are(
            &lower,
            "no",
        ) {
            return MpRequest::SetEnabled(false);
        } else {
            return MpRequest::SettingsUsage;
        }
    }
    if args.len() > 0 && eq_ignore_ascii_case(args[0], "sent") {
        let page = if args.len() > 1 {
            requested_page(Some(args[1]))
        } else {
            requested_page(None)
        };
        return MpRequest::Sent(page);
    }
    if args.len() > 0 && (eq_ignore_ascii_case(args[0], "delete") || eq_ignore_ascii_case(
        args[0],
        "del",
    )) {
        if args.len() < 2 {
            return MpRequest::DeleteUsage;
        }
        let raw = chars_of(args[1]);
        return match parse_i64_chars(&raw) {
            Some(id) => MpRequest::Delete(id),
            None => MpRequest::InvalidId,
        };
    }
    if args.len() < 2 {
        return MpRequest::SendUsage;
    }
    let target = parse_user_id(args[0]);
    let content = join_args(args, 1, " ");
    MpRequest::Send(target, content)
}

/// `mp settings` followed by a word switches private messages: `off`,
/// `false` or `no` (once lowercased) turn them off, `on`, `true` or `yes`
/// turn them on, and any other word only shows how to use the command; no
/// word does two of these.
pub proof fn lemma_mp_settings_switch(args: Seq<&str>, r: MpRequest)
    requires
        args.len() >= 2,
        eq_ignore_ascii_case_seq(args[0]@, "settings"@),
        mp_request_spec(args, r),
    ensures
        ({
            let w = str_lowercase(args[1]@);
            &&& (w == "off"@ || w == "false"@ || w == "no"@) ==> r == MpRequest::SetEnabled(false)
            &&& (w == "on"@ || w == "true"@ || w == "yes"@) ==> r == MpRequest::SetEnabled(true)
            &&& !(w == "off"@ || w == "false"@ || w == "no"@ || w == "on"@ || w == "true"@ || w
                == "yes"@) ==> r == MpRequest::SettingsUsage
        }),
{
    reveal_strlit("on");
    reveal_strlit("off");
    reveal_strlit("true");
    reveal_strlit("false");
    reveal_strlit("yes");
    reveal_strlit("no");
    assert("on"@[0] != "no"@[0]);
    assert("on"@.len() != "off"@.len());
    assert("off"@[0] != "yes"@[0]);
    assert("true"@[0] != "false"@[0]);
    assert("no"@[0] != "on"@[0]);
}

/// The other `mp` commands, the first word in any ASCII case: `settings`
/// alone shows the switch; `sent [page]` shows that page of the messages
/// sent (the first page when the page is missing, not a number or below
/// one); `delete <entry>` or `del <entry>` deletes the entry when it is a
/// number and refuses it otherwise, and shows how to use it when it is
/// missing; any other first word sends the rest, joined by spaces, to the
/// member it names, or shows how to send with fewer than two words.
pub proof fn lemma_mp_commands(args: Seq<&str>, r: MpRequest)
    requires
        mp_request_spec(args, r),
    ensures
        args.len() == 1 && eq_ignore_ascii_case_seq(args[0]@, "settings"@) ==> r
            == MpRequest::ShowSettings,
        args.len() == 1 && eq_ignore_ascii_case_seq(args[0]@, "sent"@) ==> r == MpRequest::Sent(1),
        args.len() >= 2 && eq_ignore_ascii_case_seq(args[0]@, "sent"@) ==> r == MpRequest::Sent(
            match parse_i64_spec(args[1]@) {
                Some(p) => if p < 1 {
                    1
                } else {
                    p
                },
                None => 1,
            },
        ),
        args.len() == 1 && (eq_ignore_ascii_case_seq(args[0]@, "delete"@)
            || eq_ignore_ascii_case_seq(args[0]@, "del"@)) ==> r == MpRequest::DeleteUsage,
        args.len() >= 2 && (eq_ignore_ascii_case_seq(args[0]@, "delete"@)
            || eq_ignore_ascii_case_seq(args[0]@, "del"@)) ==> r == match parse_i64_spec(
            args[1]@,
        ) {
            Some(id) => MpRequest::Delete(id),
            None => MpRequest::InvalidId,
        },
        args.len() >= 2 && !eq_ignore_ascii_case_seq(args[0]@, "settings"@)
            && !eq_ignore_ascii_case_seq(args[0]@, "sent"@) && !eq_ignore_ascii_case_seq(
            args[0]@,
            "delete"@,
        ) && !eq_ignore_ascii_case_seq(args[0]@, "del"@) ==> (r matches MpRequest::Send(
            target,
            content,
        ) && target == parse_u64_spec(mention_body(args[0]@)) && content@ == join_seq(
            str_views(args.skip(1)),
            " "@,
        )),
        args.len() < 2 && !eq_ignore_ascii_case_seq(args[0]@, "settings"@)
            && !eq_ignore_ascii_case_seq(args[0]@, "sent"@) && !eq_ignore_ascii_case_seq(
            args[0]@,
            "delete"@,
        ) && !eq_ignore_ascii_case_seq(args[0]@, "del"@) ==> r == MpRequest::SendUsage,
{
    reveal_strlit("settings");
    reveal_strlit("sent");
    reveal_strlit("delete");
    reveal_strlit("del");
}

/// The private message as it is sent: the text, a blank line, and who
/// sent it.
pub fn mp_message_text(content: &str, author_tag: &str) -> (r: String)
    ensures
        r@ == content@ + "\n\n- envoyé par "@ + author_tag@,
{
    let mut v: Vec<char> = Vec::new();
    extend_str(&mut v, content);
    extend_str(&mut v, "\n\n- envoyé par ");
    extend_str(&mut v, author_tag);
    string_of(&v)
}

/// How the switch is shown: `on` or `off`.
pub open spec fn switch_word(on: bool) -> Seq<char> {
    if on {
        "on"@
    } else {
        "off"@
    }
}

/// The settings shown by `mp settings`.
pub fn mp_settings_text(enabled: bool) -> (r: String)
    ensures
        r@ == "Envoi de MP: `"@ + switch_word(enabled) + "`\nUtilise `+mp settings on/off`."@,
{
    let mut v: Vec<char> = Vec::new();
    extend_str(&mut v, "Envoi de MP: `");
    extend_str(&mut v, if enabled { "on" } else { "off" });
    extend_str(&mut v, "`\nUtilise `+mp settings on/off`.");
    string_of(&v)
}

/// The answer to `mp settings on` or `off`.
pub fn mp_settings_updated_text(enabled: bool) -> (r: String)
    ensures
        r@ == "Envoi de MP: `"@ + switch_word(enabled) + "`"@,
{
    let mut v: Vec<char> = Vec::new();
    extend_str(&mut v, "Envoi de MP: `");
    extend_str(&mut v, if enabled { "on" } else { "off" });
    extend_str(&mut v, "`");
    string_of(&v)
}

/// The answer to deleting a sent message: deleted, or only marked deleted
/// when the chat service refused to delete it.
pub fn mp_deleted_text(entry_id: i64, refused: bool) -> (r: String)
    ensures
        r@ == "Entrée `#"@ + signed_decimal(entry_id as int) + (if refused {
            "` marquée supprimée en base (Discord a refusé la suppression)."@
        } else {
            "` supprimée."@
        }),
{
    let mut v: Vec<char> = Vec::new();
    extend_str(&mut v, "Entrée `#");
    push_signed_decimal(&mut v, entry_id);
    if refused {
        extend_str(&mut v, "` marquée supprimée en base (Discord a refusé la suppression).");
    } else {
        extend_str(&mut v, "` supprimée.");
    }
    string_of(&v)
}

/// The heading of a page of the sent messages: how many there are, and
/// which page of how many.
pub fn mp_sent_summary(total: i64, page: i64, total_pages: i64) -> (r: String)
    ensures
        r@ == signed_decimal(total as int) + " message(s) · Page "@ + signed_decimal(page as int)
            + "/"@ + signed_decimal(total_pages as int),
{
    let mut v: Vec<char> = Vec::new();
    push_signed_decimal(&mut v, total);
    extend_str(&mut v, " message(s) · Page ");
    push_signed_decimal(&mut v, page);
    extend_str(&mut v, "/");
    push_signed_decimal(&mut v, total_pages);
    string_of(&v)
}

/// The answer once a private message is sent: to whom.
pub fn mp_sent_to_text(user_id: u64) -> (r: String)
    ensures
        r@ == "À <@"@ + decimal(user_id as nat) + ">."@,
{
    let mut v: Vec<char> = Vec::new();
    extend_str(&mut v, "À <@");
    push_decimal(&mut v, user_id);
    extend_str(&mut v, ">.");
    string_of(&v)
}

/// What a press on a page button of the sent-messages list leads to.
#[derive(Clone, Copy, Debug, PartialEq, Eq, Structural)]
pub enum MpComponentRoute {
    /// Not a page button.
    Unhandled,
    /// The list belongs to another member.
    NotOwner,
    /// Show this page.
    Page(i64),
}

/// Routes a press on a page button by member `user_id`: only the member
/// who asked for the list may turn its pages.
pub fn route_mp_component(custom_id: &str, user_id: u64) -> (r: MpComponentRoute)
    ensures
        r == match mp_sent_split(custom_id@) {
            None => MpComponentRoute::Unhandled,
            Some((owner, page)) => if owner != user_id {
                MpComponentRoute::NotOwner
            } else {
                MpComponentRoute::Page(page)
            },
        },
{
    match parse_mp_sent_custom_id(custom_id) {
        None => MpComponentRoute::Unhandled,
        Some((owner, page)) => {
            if owner != user_id {
                MpComponentRoute::NotOwner
            } else {
                MpComponentRoute::Page(page)
            }
        },
    }
}

} // verus!
