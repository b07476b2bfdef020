//! The advanced tools: which action a button or a submitted form of their
//! menus stands for, and what the tools read from what a user typed
//! (durations, options, colours, channels) and show back.
use base64::Engine;
use rand::seq::SliceRandom;
use vstd::prelude::*;

use crate::components::{owner_split, parse_owner_component_id};
use crate::text::{
    chars_are, chars_of, decimal, extend_str, is_ascii_digit, is_digit, is_whitespace, is_ws,
    join_args, join_seq, normalize, normalized, parse_u64_chars, parse_u64_spec, push_decimal,
    push_signed_decimal, signed_decimal, split_chars, split_seq, starts_with_seq, starts_with_str,
    str_views, string_of, strip_end, strip_end_chars, strip_start, strip_start_chars, trim_chars,
    trim_seq, views_of, is_ascii_seq, ascii_lower_seq, ascii_lower, is_ascii_char, is_ascii_upper,
    trim_start_seq, trim_end_seq, lemma_parse_u64_decimal, lemma_decimal_all_digits, all_digits,
};

verus! {

// ---------------------------------------------------------------------------
// Actions of the menus
// ---------------------------------------------------------------------------

/// An action of the advanced tools' menus.
#[derive(Clone, Copy, Debug, PartialEq, Eq, Structural)]
pub enum AdvAction {
    GiveawayOpen,
    GiveawayEnd,
    BackupCreate,
    BackupList,
    BackupLoad,
    BackupDelete,
    AutoreactAdd,
    AutoreactDel,
    AutoreactList,
    Choose,
    Embed,
    Loading,
}

/// The identifier of an action, as it is written before the owner in the
/// identifier of a button or of a form.
pub open spec fn adv_action_name(a: AdvAction) -> Seq<char> {
    match a {
        AdvAction::GiveawayOpen => "adv:giveaway:open_modal"@,
        AdvAction::GiveawayEnd => "adv:giveaway:end_modal"@,
        AdvAction::BackupCreate => "adv:backup:create_modal"@,
        AdvAction::BackupList => "adv:backup:list_modal"@,
        AdvAction::BackupLoad => "adv:backup:load_modal"@,
        AdvAction::BackupDelete => "adv:backup:delete_modal"@,
        AdvAction::AutoreactAdd => "adv:autoreact:add_modal"@,
        AdvAction::AutoreactDel => "adv:autoreact:del_modal"@,
        AdvAction::AutoreactList => "adv:autoreact:list"@,
        AdvAction::Choose => "adv:choose:modal"@,
        AdvAction::Embed => "adv:embed:modal"@,
        AdvAction::Loading => "adv:loading:modal"@,
    }
}

/// The action an identifier names, if any.
pub open spec fn adv_action_of(name: Seq<char>) -> Option<AdvAction> {
    if name == "adv:giveaway:open_modal"@ {
        Some(AdvAction::GiveawayOpen)
    } else if name == "adv:giveaway:end_modal"@ {
        Some(AdvAction::GiveawayEnd)
    } else if name == "adv:backup:create_modal"@ {
        Some(AdvAction::BackupCreate)
    } else if name == "adv:backup:list_modal"@ {
        Some(AdvAction::BackupList)
    } else if name == "adv:backup:load_modal"@ {
        Some(AdvAction::BackupLoad)
    } else if name == "adv:backup:delete_modal"@ {
        Some(AdvAction::BackupDelete)
    } else if name == "adv:autoreact:add_modal"@ {
        Some(AdvAction::AutoreactAdd)
    } else if name == "adv:autoreact:del_modal"@ {
        Some(AdvAction::AutoreactDel)
    } else if name == "adv:autoreact:list"@ {
        Some(AdvAction::AutoreactList)
    } else if name == "adv:choose:modal"@ {
        Some(AdvAction::Choose)
    } else if name == "adv:embed:modal"@ {
        Some(AdvAction::Embed)
    } else if name == "adv:loading:modal"@ {
        Some(AdvAction::Loading)
    } else {
        None
    }
}

/// The identifier of an action.
pub fn adv_action_id(a: AdvAction) -> (r: &'static str)
    ensures
        r@ == adv_action_name(a),
{
    match a {
        AdvAction::GiveawayOpen => "adv:giveaway:open_modal",
        AdvAction::GiveawayEnd => "adv:giveaway:end_modal",
        AdvAction::BackupCreate => "adv:backup:create_modal",
        AdvAction::BackupList => "adv:backup:list_modal",
        AdvAction::BackupLoad => "adv:backup:load_modal",
        AdvAction::BackupDelete => "adv:backup:delete_modal",
        AdvAction::AutoreactAdd => "adv:autoreact:add_modal",
        AdvAction::AutoreactDel => "adv:autoreact:del_modal",
        AdvAction::AutoreactList => "adv:autoreact:list",
        AdvAction::Choose => "adv:choose:modal",
        AdvAction::Embed => "adv:embed:modal",
        AdvAction::Loading => "adv:loading:modal",
    }
}

/// The action an identifier names.
pub fn parse_adv_action(name: &str) -> (r: Option<AdvAction>)
    ensures
        r == adv_action_of(name@),
{
    let v = crate::text::chars_of(name);
    if crate::text::chars_are(&v, "adv:giveaway:open_modal") {
        Some(AdvAction::GiveawayOpen)
    } else if crate::text::chars_are(&v, "adv:giveaway:end_modal") {
        Some(AdvAction::GiveawayEnd)
    } else if crate::text::chars_are(&v, "adv:backup:create_modal") {
        Some(AdvAction::BackupCreate)
    } else if crate::text::chars_are(&v, "adv:backup:list_modal") {
        Some(AdvAction::BackupList)
    } else if crate::text::chars_are(&v, "adv:backup:load_modal") {
        Some(AdvAction::BackupLoad)
    } else if crate::text::chars_are(&v, "adv:backup:delete_modal") {
        Some(AdvAction::BackupDelete)
    } else if crate::text::chars_are(&v, "adv:autoreact:add_modal") {
        Some(AdvAction::AutoreactAdd)
    } else if crate::text::chars_are(&v, "adv:autoreact:del_modal") {
        Some(AdvAction::AutoreactDel)
    } else if crate::text::chars_are(&v, "adv:autoreact:list") {
        Some(AdvAction::AutoreactList)
    } else if crate::text::chars_are(&v, "adv:choose:modal") {
        Some(AdvAction::Choose)
    } else if crate::text::chars_are(&v, "adv:embed:modal") {
        Some(AdvAction::Embed)
    } else if crate::text::chars_are(&v, "adv:loading:modal") {
        Some(AdvAction::Loading)
    } else {
        None
    }
}

/// Every action is read back from its identifier.
pub proof fn lemma_adv_action_round_trip(a: AdvAction)
    ensures
        adv_action_of(adv_action_name(a)) == Some(a),
{
    reveal_strlit("adv:giveaway:open_modal");
    reveal_strlit("adv:giveaway:end_modal");
    reveal_strlit("adv:backup:create_modal");
    reveal_strlit("adv:backup:list_modal");
    reveal_strlit("adv:backup:load_modal");
    reveal_strlit("adv:backup:delete_modal");
    reveal_strlit("adv:autoreact:add_modal");
    reveal_strlit("adv:autoreact:del_modal");
    reveal_strlit("adv:autoreact:list");
    reveal_strlit("adv:choose:modal");
    reveal_strlit("adv:embed:modal");
    reveal_strlit("adv:loading:modal");
    // Each identifier differs from those before it in length or at one
    // character.
    match a {
        AdvAction::GiveawayOpen => {
        },
        AdvAction::GiveawayEnd => {
            assert("adv:giveaway:end_modal"@.len() != "adv:giveaway:open_modal"@.len());
        },
        AdvAction::BackupCreate => {
            assert("adv:backup:create_modal"@[4] != "adv:giveaway:open_modal"@[4]);
            assert("adv:backup:create_modal"@.len() != "adv:giveaway:end_modal"@.len());
        },
        AdvAction::BackupList => {
            assert("adv:backup:list_modal"@.len() != "adv:giveaway:open_modal"@.len());
            assert("adv:backup:list_modal"@.len() != "adv:giveaway:end_modal"@.len());
            assert("adv:backup:list_modal"@.len() != "adv:backup:create_modal"@.len());
        },
        AdvAction::BackupLoad => {
            assert("adv:backup:load_modal"@.len() != "adv:giveaway:open_modal"@.len());
            assert("adv:backup:load_modal"@.len() != "adv:giveaway:end_modal"@.len());
            assert("adv:backup:load_modal"@.len() != "adv:backup:create_modal"@.len());
            assert("adv:backup:load_modal"@[12] != "adv:backup:list_modal"@[12]);
        },
        AdvAction::BackupDelete => {
            assert("adv:backup:delete_modal"@[4] != "adv:giveaway:open_modal"@[4]);
            assert("adv:backup:delete_modal"@.len() != "adv:giveaway:end_modal"@.len());
            assert("adv:backup:delete_modal"@[11] != "adv:backup:create_modal"@[11]);
            assert("adv:backup:delete_modal"@.len() != "adv:backup:list_modal"@.len());
            assert("adv:backup:delete_modal"@.len() != "adv:backup:load_modal"@.len());
        },
        AdvAction::AutoreactAdd => {
            assert("adv:autoreact:add_modal"@[4] != "adv:giveaway:open_modal"@[4]);
            assert("adv:autoreact:add_modal"@.len() != "adv:giveaway:end_modal"@.len());
            assert("adv:autoreact:add_modal"@[4] != "adv:backup:create_modal"@[4]);
            assert("adv:autoreact:add_modal"@.len() != "adv:backup:list_modal"@.len());
            assert("adv:autoreact:add_modal"@.len() != "adv:backup:load_modal"@.len());
            assert("adv:autoreact:add_modal"@[4] != "adv:backup:delete_modal"@[4]);
        },
        AdvAction::AutoreactDel => {
            assert("adv:autoreact:del_modal"@[4] != "adv:giveaway:open_modal"@[4]);
            assert("adv:autoreact:del_modal"@.len() != "adv:giveaway:end_modal"@.len());
            assert("adv:autoreact:del_modal"@[4] != "adv:backup:create_modal"@[4]);
            assert("adv:autoreact:del_modal"@.len() != "adv:backup:list_modal"@.len());
            assert("adv:autoreact:del_modal"@.len() != "adv:backup:load_modal"@.len());
            assert("adv:autoreact:del_modal"@[4] != "adv:backup:delete_modal"@[4]);
            assert("adv:autoreact:del_modal"@[14] != "adv:autoreact:add_modal"@[14]);
        },
        AdvAction::AutoreactList => {
            assert("adv:autoreact:list"@.len() != "adv:giveaway:open_modal"@.len());
            assert("adv:autoreact:list"@.len() != "adv:giveaway:end_modal"@.len());
            assert("adv:autoreact:list"@.len() != "adv:backup:create_modal"@.len());
            assert("adv:autoreact:list"@.len() != "adv:backup:list_modal"@.len());
            assert("adv:autoreact:list"@.len() != "adv:backup:load_modal"@.len());
            assert("adv:autoreact:list"@.len() != "adv:backup:delete_modal"@.len());
            assert("adv:autoreact:list"@.len() != "adv:autoreact:add_modal"@.len());
            assert("adv:autoreact:list"@.len() != "adv:autoreact:del_modal"@.len());
        },
        AdvAction::Choose => {
            assert("adv:choose:modal"@.len() != "adv:giveaway:open_modal"@.len());
            assert("adv:choose:modal"@.len() != "adv:giveaway:end_modal"@.len());
            assert("adv:choose:modal"@.len() != "adv:backup:create_modal"@.len());
            assert("adv:choose:modal"@.len() != "adv:backup:list_modal"@.len());
            assert("adv:choose:modal"@.len() != "adv:backup:load_modal"@.len());
            assert("adv:choose:modal"@.len() != "adv:backup:delete_modal"@.len());
            assert("adv:choose:modal"@.len() != "adv:autoreact:add_modal"@.len());
            assert("adv:choose:modal"@.len() != "adv:autoreact:del_modal"@.len());
            assert("adv:choose:modal"@.len() != "adv:autoreact:list"@.len());
        },
        AdvAction::Embed => {
            assert("adv:embed:modal"@.len() != "adv:giveaway:open_modal"@.len());
            assert("adv:embed:modal"@.len() != "adv:giveaway:end_modal"@.len());
            assert("adv:embed:modal"@.len() != "adv:backup:create_modal"@.len());
            assert("adv:embed:modal"@.len() != "adv:backup:list_modal"@.len());
            assert("adv:embed:modal"@.len() != "adv:backup:load_modal"@.len());
            assert("adv:embed:modal"@.len() != "adv:backup:delete_modal"@.len());
            assert("adv:embed:modal"@.len() != "adv:autoreact:add_modal"@.len());
            assert("adv:embed:modal"@.len() != "adv:autoreact:del_modal"@.len());
            assert("adv:embed:modal"@.len() != "adv:autoreact:list"@.len());
            assert("adv:embed:modal"@.len() != "adv:choose:modal"@.len());
        },
        AdvAction::Loading => {
            assert("adv:loading:modal"@.len() != "adv:giveaway:open_modal"@.len());
            assert("adv:loading:modal"@.len() != "adv:giveaway:end_modal"@.len());
            assert("adv:loading:modal"@.len() != "adv:backup:create_modal"@.len());
            assert("adv:loading:modal"@.len() != "adv:backup:list_modal"@.len());
            assert("adv:loading:modal"@.len() != "adv:backup:load_modal"@.len());
            assert("adv:loading:modal"@.len() != "adv:backup:delete_modal"@.len());
            assert("adv:loading:modal"@.len() != "adv:autoreact:add_modal"@.len());
            assert("adv:loading:modal"@.len() != "adv:autoreact:del_modal"@.len());
            assert("adv:loading:modal"@.len() != "adv:autoreact:list"@.len());
            assert("adv:loading:modal"@.len() != "adv:choose:modal"@.len());
            assert("adv:loading:modal"@.len() != "adv:embed:modal"@.len());
        },
    }
}

// ---------------------------------------------------------------------------
// Routing buttons and forms
// ---------------------------------------------------------------------------

/// What a button press on an advanced-tools menu leads to.
#[derive(Clone, Copy, Debug, PartialEq, Eq, Structural)]
pub enum ComponentRoute {
    /// The join button of a giveaway: the entry is acknowledged.
    GiveawayJoin,
    /// The button belongs to another member's menu.
    NotOwner,
    /// The action of the button: a form opens, or the auto-reactions are
    /// listed.
    Open(AdvAction),
    /// Not a button of these menus.
    Unhandled,
}

/// How a button press is routed: an identifier `<action>:<owner>` is
/// refused to anyone but its owner, and then leads to its action; the
/// giveaway's join button has no owner.
pub open spec fn component_route_spec(custom_id: Seq<char>, user: u64) -> ComponentRoute {
    match owner_split(custom_id) {
        None => if custom_id == "adv:giveaway:join"@ {
            ComponentRoute::GiveawayJoin
        } else {
            ComponentRoute::Unhandled
        },
        Some((action, owner)) => if user != owner {
            ComponentRoute::NotOwner
        } else {
            match adv_action_of(action) {
                Some(a) => ComponentRoute::Open(a),
                None => ComponentRoute::Unhandled,
            }
        },
    }
}

/// Routes a button press of member `user_id`.
pub fn route_adv_component(custom_id: &str, user_id: u64) -> (r: ComponentRoute)
    ensures
        r == component_route_spec(custom_id@, user_id),
{
    match parse_owner_component_id(custom_id) {
        None => {
            let v = crate::text::chars_of(custom_id);
            if crate::text::chars_are(&v, "adv:giveaway:join") {
                ComponentRoute::GiveawayJoin
            } else {
                ComponentRoute::Unhandled
            }
        },
        Some((action, owner)) => {
            if user_id != owner {
                ComponentRoute::NotOwner
            } else {
                match parse_adv_action(action) {
                    Some(a) => ComponentRoute::Open(a),
                    None => ComponentRoute::Unhandled,
                }
            }
        },
    }
}

/// What a submitted form of an advanced-tools menu leads to.
#[derive(Clone, Copy, Debug, PartialEq, Eq, Structural)]
pub enum ModalRoute {
    /// The form belongs to another member's menu.
    NotOwner,
    /// The form was sent outside a server.
    NeedsServer,
    /// The form of an action, to carry out.
    Submit(AdvAction),
    /// Not a form of these menus.
    Unhandled,
}

/// How a submitted form is routed: refused to anyone but the owner named
/// in its identifier, then outside a server; then it leads to its action
/// (listing the auto-reactions has no form).
pub open spec fn modal_route_spec(custom_id: Seq<char>, user: u64, in_server: bool) -> ModalRoute {
    match owner_split(custom_id) {
        None => ModalRoute::Unhandled,
        Some((action, owner)) => if user != owner {
            ModalRoute::NotOwner
        } else if !in_server {
            ModalRoute::NeedsServer
        } else {
            match adv_action_of(action) {
                Some(a) => if a == AdvAction::AutoreactList {
                    ModalRoute::Unhandled
                } else {
                    ModalRoute::Submit(a)
                },
                None => ModalRoute::Unhandled,
            }
        },
    }
}

/// Routes a form submitted by member `user_id`.
pub fn route_adv_modal(custom_id: &str, user_id: u64, in_server: bool) -> (r: ModalRoute)
    ensures
        r == modal_route_spec(custom_id@, user_id, in_server),
{
    match parse_owner_component_id(custom_id) {
        None => ModalRoute::Unhandled,
        Some((action, owner)) => {
            if user_id != owner {
                ModalRoute::NotOwner
            } else if !in_server {
                ModalRoute::NeedsServer
            } else {
                match parse_adv_action(action) {
                    Some(AdvAction::AutoreactList) => ModalRoute::Unhandled,
                    Some(a) => ModalRoute::Submit(a),
                    None => ModalRoute::Unhandled,
                }
            }
        },
    }
}

/// A button of a menu, pressed by the member it was made for, leads to
/// the action it was made with; pressed by anyone else, it is refused.
pub proof fn lemma_menu_button_route(a: AdvAction, owner: u64, user: u64)
    ensures
        component_route_spec(crate::components::owner_id_text(adv_action_name(a), owner), user)
            == (if user == owner {
            ComponentRoute::Open(a)
        } else {
            ComponentRoute::NotOwner
        }),
{
    crate::components::lemma_owner_id_round_trip(adv_action_name(a), owner);
    lemma_adv_action_round_trip(a);
}

// ---------------------------------------------------------------------------
// Durations
// ---------------------------------------------------------------------------

/// A character of a duration's unit: neither a digit nor whitespace.
pub open spec fn is_unit_char(c: char) -> bool {
    !is_digit(c) && !is_ws(c)
}

/// The digits of `s`, in order.
pub open spec fn number_chars(s: Seq<char>) -> Seq<char>
    decreases s.len(),
{
    if s.len() == 0 {
        Seq::empty()
    } else if is_digit(s.last()) {
        number_chars(s.drop_last()).push(s.last())
    } else {
        number_chars(s.drop_last())
    }
}

/// The unit characters of `s`, in order.
pub open spec fn unit_chars(s: Seq<char>) -> Seq<char>
    decreases s.len(),
{
    if s.len() == 0 {
        Seq::empty()
    } else if is_unit_char(s.last()) {
        unit_chars(s.drop_last()).push(s.last())
    } else {
        unit_chars(s.drop_last())
    }
}

/// A digit comes after a character of the unit.
pub open spec fn digit_after_unit(s: Seq<char>) -> bool {
    exists|i: int, j: int|
        0 <= i < j < s.len() && is_unit_char(#[trigger] s[i]) && is_digit(#[trigger] s[j])
}

/// The seconds in one of a unit (none, `s`, `m`, `h`, `j`, `d`, and their
/// French words).
pub open spec fn duration_unit(u: Seq<char>) -> Option<int> {
    if u.len() == 0 || u == "s"@ || u == "sec"@ || u == "secs"@ || u == "seconde"@ || u
        == "secondes"@ {
        Some(1)
    } else if u == "m"@ || u == "min"@ || u == "mins"@ || u == "minute"@ || u == "minutes"@ {
        Some(60)
    } else if u == "h"@ || u == "heure"@ || u == "heures"@ {
        Some(3600)
    } else if u == "j"@ || u == "d"@ || u == "jour"@ || u == "jours"@ {
        Some(86400)
    } else {
        None
    }
}

/// The seconds a typed duration stands for, at least one: the text is
/// trimmed and lowercased; its digits make the number and its other
/// non-space characters the unit, which must all come after the number.
pub open spec fn duration_input_seconds(input: Seq<char>) -> Option<int> {
    duration_text_seconds(normalized(input))
}

/// The seconds a trimmed, lowercased duration text stands for, at least
/// one.
pub open spec fn duration_text_seconds(raw: Seq<char>) -> Option<int> {
    if raw.len() == 0 || digit_after_unit(raw) {
        None
    } else {
        match (parse_u64_spec(number_chars(raw)), duration_unit(unit_chars(raw))) {
            (Some(v), Some(f)) => Some(
                if v * f < 1 {
                    1
                } else {
                    v * f
                },
            ),
            _ => None,
        }
    }
}

/// The seconds of a typed duration fit in 64 bits (or it is no duration).
pub open spec fn duration_fits(input: Seq<char>) -> bool {
    match duration_input_seconds(input) {
        Some(n) => n <= u64::MAX,
        None => true,
    }
}

/// The number and the unit's factor of a trimmed, lowercased duration.
fn duration_parts(raw: &Vec<char>) -> (r: Option<(u64, u64)>)
    ensures
        match r {
            Some((v, f)) => !digit_after_unit(raw@) && parse_u64_spec(number_chars(raw@)) == Some(
                v,
            ) && duration_unit(unit_chars(raw@)) == Some(f as int),
            None => digit_after_unit(raw@) || parse_u64_spec(number_chars(raw@)) is None
                || duration_unit(unit_chars(raw@)) is None,
        },
{
    let mut number: Vec<char> = Vec::new();
    let mut unit: Vec<char> = Vec::new();
    let mut i: usize = 0;
    while i < raw.len()
        invariant
            i <= raw.len(),
            number@ == number_chars(raw@.take(i as int)),
            unit@ == unit_chars(raw@.take(i as int)),
            !digit_after_unit(raw@.take(i as int)),
            unit@.len() > 0 <==> exists|k: int| 0 <= k < i && is_unit_char(#[trigger] raw@[k]),
        decreases raw.len() - i,
    {
        let c = raw[i];
        let ghost t = raw@.take(i as int);
        let ghost t1 = raw@.take(i + 1);
        assert(t1.drop_last() =~= t);
        assert(t1.last() == c);
        if is_ascii_digit(c) {
            if unit.len() > 0 {
                proof {
                    let k = choose|k: int| 0 <= k < i && is_unit_char(#[trigger] raw@[k]);
                    assert(is_unit_char(raw@[k]) && is_digit(raw@[i as int]));
                }
                return None;
            }
            number.push(c);
        } else if !is_whitespace(c) {
            unit.push(c);
        }
        proof {
            assert forall|a: int, b: int|
                0 <= a < b < t1.len() && is_unit_char(#[trigger] t1[a]) implies !is_digit(
                #[trigger] t1[b],
            ) by {
                if b < i {
                    assert(t[a] == t1[a] && t[b] == t1[b]);
                } else {
                    assert(raw@[a] == t1[a]);
                }
            }
            if unit@.len() > 0 && !is_unit_char(c) {
                let k = choose|k: int| 0 <= k < i && is_unit_char(#[trigger] raw@[k]);
                assert(0 <= k < i + 1 && is_unit_char(raw@[k]));
            }
            if is_unit_char(c) {
                assert(is_unit_char(raw@[i as int]));
            }
        }
        i += 1;
    }
    assert(raw@.take(raw.len() as int) =~= raw@);
    let value = match parse_u64_chars(&number) {
        Some(v) => v,
        None => return None,
    };
    let factor: u64 = if unit.len() == 0 || chars_are(&unit, "s") || chars_are(&unit, "sec")
        || chars_are(&unit, "secs") || chars_are(&unit, "seconde") || chars_are(
        &unit,
        "secondes",
    ) {
        1
    } else if chars_are(&unit, "m") || chars_are(&unit, "min") || chars_are(&unit, "mins")
        || chars_are(&unit, "minute") || chars_are(&unit, "minutes") {
        60
    } else if chars_are(&unit, "h") || chars_are(&unit, "heure") || chars_are(&unit, "heures") {
        3600
    } else if chars_are(&unit, "j") || chars_are(&unit, "d") || chars_are(&unit, "jour")
        || chars_are(&unit, "jours") {
        86400
    } else {
        return None;
    };
    Some((value, factor))
}

/// Whether the seconds of a typed duration fit in 64 bits.
pub fn duration_input_fits(input: &str) -> (r: bool)
    ensures
        r == duration_fits(input@),
{
    let raw = normalize(input);
    if raw.len() == 0 {
        return true;
    }
    match duration_parts(&raw) {
        None => true,
        Some((v, f)) => v.checked_mul(f).is_some(),
    }
}

proof fn lemma_number_unit_concat(a: Seq<char>, b: Seq<char>)
    ensures
        number_chars(a + b) == number_chars(a) + number_chars(b),
        unit_chars(a + b) == unit_chars(a) + unit_chars(b),
    decreases b.len(),
{
    if b.len() == 0 {
        assert(a + b =~= a);
        assert(number_chars(a) + number_chars(b) =~= number_chars(a));
        assert(unit_chars(a) + unit_chars(b) =~= unit_chars(a));
    } else {
        lemma_number_unit_concat(a, b.drop_last());
        assert((a + b).drop_last() =~= a + b.drop_last());
        assert((a + b).last() == b.last());
        assert(number_chars(a) + number_chars(b.drop_last()).push(b.last()) =~= (number_chars(a)
            + number_chars(b.drop_last())).push(b.last()));
        assert(unit_chars(a) + unit_chars(b.drop_last()).push(b.last()) =~= (unit_chars(a)
            + unit_chars(b.drop_last())).push(b.last()));
    }
}

proof fn lemma_number_unit_of(s: Seq<char>, kind: int)
    requires
        kind == 0 ==> forall|k: int| 0 <= k < s.len() ==> is_digit(#[trigger] s[k]),
        kind == 1 ==> forall|k: int| 0 <= k < s.len() ==> #[trigger] s[k] == ' ',
        kind == 2 ==> forall|k: int| 0 <= k < s.len() ==> 'a' <= #[trigger] s[k] <= 'z',
    ensures
        kind == 0 ==> number_chars(s) == s && unit_chars(s) == Seq::<char>::empty(),
        kind == 1 ==> number_chars(s) == Seq::<char>::empty() && unit_chars(s) == Seq::<
            char,
        >::empty(),
        kind == 2 ==> number_chars(s) == Seq::<char>::empty() && unit_chars(s) == s,
    decreases s.len(),
{
    if s.len() > 0 {
        let p = s.drop_last();
        assert forall|k: int| 0 <= k < p.len() implies p[k] == s[k] by {}
        lemma_number_unit_of(p, kind);
        assert(p.push(s.last()) =~= s);
        assert(is_ws(' '));
    }
}

/// A number, some spaces, then a word of lowercase letters: the layout of
/// a typed duration with a unit.
pub open spec fn amount_with_word(n: u64, gap: nat, word: Seq<char>) -> Seq<char> {
    decimal(n as nat) + Seq::new(gap, |k: int| ' ') + word
}

proof fn lemma_amount_with_word(n: u64, gap: nat, word: Seq<char>)
    requires
        word.len() > 0,
        forall|k: int| 0 <= k < word.len() ==> 'a' <= #[trigger] word[k] <= 'z',
    ensures
        !digit_after_unit(amount_with_word(n, gap, word)),
        number_chars(amount_with_word(n, gap, word)) == decimal(n as nat),
        unit_chars(amount_with_word(n, gap, word)) == word,
        is_ascii_seq(amount_with_word(n, gap, word)),
        ascii_lower_seq(trim_seq(amount_with_word(n, gap, word))) == amount_with_word(n, gap, word),
        parse_u64_spec(decimal(n as nat)) == Some(n),
{
    let d = decimal(n as nat);
    let sp = Seq::new(gap, |k: int| ' ');
    let t = amount_with_word(n, gap, word);
    lemma_decimal_all_digits(n as nat);
    lemma_parse_u64_decimal(n);
    assert forall|k: int| 0 <= k < d.len() implies is_digit(#[trigger] d[k]) by {}
    lemma_number_unit_of(d, 0);
    assert forall|k: int| 0 <= k < sp.len() implies #[trigger] sp[k] == ' ' by {}
    lemma_number_unit_of(sp, 1);
    lemma_number_unit_of(word, 2);
    lemma_number_unit_concat(d, sp);
    lemma_number_unit_concat(d + sp, word);
    assert(Seq::<char>::empty() + Seq::<char>::empty() =~= Seq::<char>::empty());
    assert(d + Seq::<char>::empty() =~= d);
    assert(Seq::<char>::empty() + word =~= word);
    let a = d.len() as int;
    let b = a + gap;
    assert forall|k: int| 0 <= k < t.len() implies (k < a ==> is_digit(#[trigger] t[k])) && (a <= k
        < b ==> t[k] == ' ') && (b <= k ==> 'a' <= t[k] <= 'z') by {
        if k < a {
            assert(t[k] == d[k]);
        } else if k < b {
            assert(t[k] == sp[k - a]);
        } else {
            assert(t[k] == word[k - b]);
        }
    }
    assert(!digit_after_unit(t)) by {
        assert forall|i: int, j: int| 0 <= i < j < t.len() && is_unit_char(#[trigger] t[i])
            implies !is_digit(#[trigger] t[j]) by {
            assert(is_ws(' '));
            assert(i >= b);
        }
    }
    assert(is_ascii_seq(t)) by {
        assert forall|k: int| 0 <= k < t.len() implies is_ascii_char(#[trigger] t[k]) by {}
    }
    assert(trim_seq(t) == t) by {
        assert(t[0] == d[0]);
        assert(!is_ws(t[0]));
        assert(trim_start_seq(t) == t);
        assert(t.last() == word.last());
        assert(!is_ws(t.last()));
        assert(trim_end_seq(t) == t);
    }
    assert(ascii_lower_seq(t) =~= t) by {
        assert forall|k: int| 0 <= k < t.len() implies ascii_lower_seq(t)[k] == t[k] by {}
    }
}

/// Every documented unit gives its number of seconds, whatever number comes
/// before it and however many spaces between: `s`, `sec`, `secs`,
/// `seconde`, `secondes` one; `m`, `min`, `mins`, `minute`, `minutes`
/// sixty; `h`, `heure`, `heures` an hour; `j`, `d`, `jour`, `jours` a day;
/// never less than one second. Such a text is ASCII, trimmed and
/// lowercase, so `duration_from_input` reads it as it stands.
pub proof fn lemma_duration_units(n: u64, gap: nat, word: Seq<char>)
    ensures
        is_ascii_seq(amount_with_word(n, gap, word)) || word.len() == 0 || exists|k: int|
            0 <= k < word.len() && !('a' <= #[trigger] word[k] <= 'z'),
        (word == "s"@ || word == "sec"@ || word == "secs"@ || word == "seconde"@ || word
            == "secondes"@) ==> duration_text_seconds(amount_with_word(n, gap, word)) == Some(
            if n < 1 {
                1int
            } else {
                n as int
            },
        ) && ascii_lower_seq(trim_seq(amount_with_word(n, gap, word))) == amount_with_word(
            n,
            gap,
            word,
        ),
        (word == "m"@ || word == "min"@ || word == "mins"@ || word == "minute"@ || word
            == "minutes"@) ==> duration_text_seconds(amount_with_word(n, gap, word)) == Some(
            if n * 60 < 1 {
                1int
            } else {
                n * 60
            },
        ) && ascii_lower_seq(trim_seq(amount_with_word(n, gap, word))) == amount_with_word(
            n,
            gap,
            word,
        ),
        (word == "h"@ || word == "heure"@ || word == "heures"@) ==> duration_text_seconds(
            amount_with_word(n, gap, word),
        ) == Some(
            if n * 3600 < 1 {
                1int
            } else {
                n * 3600
            },
        ) && ascii_lower_seq(trim_seq(amount_with_word(n, gap, word))) == amount_with_word(
            n,
            gap,
            word,
        ),
        (word == "j"@ || word == "d"@ || word == "jour"@ || word == "jours"@)
            ==> duration_text_seconds(amount_with_word(n, gap, word)) == Some(
            if n * 86400 < 1 {
                1int
            } else {
                n * 86400
            },
        ) && ascii_lower_seq(trim_seq(amount_with_word(n, gap, word))) == amount_with_word(
            n,
            gap,
            word,
        ),
{
    reveal_strlit("s");
    reveal_strlit("sec");
    reveal_strlit("secs");
    reveal_strlit("seconde");
    reveal_strlit("secondes");
    reveal_strlit("m");
    reveal_strlit("min");
    reveal_strlit("mins");
    reveal_strlit("minute");
    reveal_strlit("minutes");
    reveal_strlit("h");
    reveal_strlit("heure");
    reveal_strlit("heures");
    reveal_strlit("j");
    reveal_strlit("d");
    reveal_strlit("jour");
    reveal_strlit("jours");
    if word == "s"@ {
        assert forall|k: int| 0 <= k < word.len() implies 'a' <= #[trigger] word[k] <= 'z' by {}
        assert(n as int * 1 == n as int);
        lemma_amount_with_word(n, gap, word);
        assert(duration_unit(word) == Some(1int));
    }
    if word == "sec"@ {
        assert forall|k: int| 0 <= k < word.len() implies 'a' <= #[trigger] word[k] <= 'z' by {}
        assert(n as int * 1 == n as int);
        lemma_amount_with_word(n, gap, word);
        assert(duration_unit(word) == Some(1int));
    }
    if word == "secs"@ {
        assert forall|k: int| 0 <= k < word.len() implies 'a' <= #[trigger] word[k] <= 'z' by {}
        assert(n as int * 1 == n as int);
        lemma_amount_with_word(n, gap, word);
        assert(duration_unit(word) == Some(1int));
    }
    if word == "seconde"@ {
        assert forall|k: int| 0 <= k < word.len() implies 'a' <= #[trigger] word[k] <= 'z' by {}
        assert(n as int * 1 == n as int);
        lemma_amount_with_word(n, gap, word);
        assert(duration_unit(word) == Some(1int));
    }
    if word == "secondes"@ {
        assert forall|k: int| 0 <= k < word.len() implies 'a' <= #[trigger] word[k] <= 'z' by {}
        assert(n as int * 1 == n as int);
        lemma_amount_with_word(n, gap, word);
        assert(duration_unit(word) == Some(1int));
    }
    if word == "m"@ {
        assert forall|k: int| 0 <= k < word.len() implies 'a' <= #[trigger] word[k] <= 'z' by {}
        assert("m"@[0] != "s"@[0]);
        lemma_amount_with_word(n, gap, word);
        assert(duration_unit(word) == Some(60int));
    }
    if word == "min"@ {
        assert forall|k: int| 0 <= k < word.len() implies 'a' <= #[trigger] word[k] <= 'z' by {}
        assert("min"@[0] != "sec"@[0]);
        lemma_amount_with_word(n, gap, word);
        assert(duration_unit(word) == Some(60int));
    }
    if word == "mins"@ {
        assert forall|k: int| 0 <= k < word.len() implies 'a' <= #[trigger] word[k] <= 'z' by {}
        assert("mins"@[0] != "secs"@[0]);
        lemma_amount_with_word(n, gap, word);
        assert(duration_unit(word) == Some(60int));
    }
    if word == "minute"@ {
        assert forall|k: int| 0 <= k < word.len() implies 'a' <= #[trigger] word[k] <= 'z' by {}
        lemma_amount_with_word(n, gap, word);
        assert(duration_unit(word) == Some(60int));
    }
    if word == "minutes"@ {
        assert forall|k: int| 0 <= k < word.len() implies 'a' <= #[trigger] word[k] <= 'z' by {}
        assert("minutes"@[0] != "seconde"@[0]);
        lemma_amount_with_word(n, gap, word);
        assert(duration_unit(word) == Some(60int));
        assert(parse_u64_spec(number_chars(amount_with_word(n, gap, word))) == Some(n));
        assert(amount_with_word(n, gap, word).len() > 0);
        assert(duration_text_seconds(amount_with_word(n, gap, word)) == Some(
            if n * 60 < 1 {
                1int
            } else {
                n * 60
            },
        ));
    }
    if word == "h"@ {
        assert forall|k: int| 0 <= k < word.len() implies 'a' <= #[trigger] word[k] <= 'z' by {}
        assert("h"@[0] != "s"@[0]);
        assert("h"@[0] != "m"@[0]);
        lemma_amount_with_word(n, gap, word);
        assert(duration_unit(word) == Some(3600int));
    }
    if word == "heure"@ {
        assert forall|k: int| 0 <= k < word.len() implies 'a' <= #[trigger] word[k] <= 'z' by {}
        lemma_amount_with_word(n, gap, word);
        assert(duration_unit(word) == Some(3600int));
    }
    if word == "heures"@ {
        assert forall|k: int| 0 <= k < word.len() implies 'a' <= #[trigger] word[k] <= 'z' by {}
        assert("heures"@[0] != "minute"@[0]);
        lemma_amount_with_word(n, gap, word);
        assert(duration_unit(word) == Some(3600int));
    }
    if word == "j"@ {
        assert forall|k: int| 0 <= k < word.len() implies 'a' <= #[trigger] word[k] <= 'z' by {}
        assert("j"@[0] != "s"@[0]);
        assert("j"@[0] != "m"@[0]);
        assert("j"@[0] != "h"@[0]);
        lemma_amount_with_word(n, gap, word);
        assert(duration_unit(word) == Some(86400int));
    }
    if word == "d"@ {
        assert forall|k: int| 0 <= k < word.len() implies 'a' <= #[trigger] word[k] <= 'z' by {}
        assert("d"@[0] != "s"@[0]);
        assert("d"@[0] != "m"@[0]);
        assert("d"@[0] != "h"@[0]);
        lemma_amount_with_word(n, gap, word);
        assert(duration_unit(word) == Some(86400int));
    }
    if word == "jour"@ {
        assert forall|k: int| 0 <= k < word.len() implies 'a' <= #[trigger] word[k] <= 'z' by {}
        assert("jour"@[0] != "secs"@[0]);
        assert("jour"@[0] != "mins"@[0]);
        lemma_amount_with_word(n, gap, word);
        assert(duration_unit(word) == Some(86400int));
    }
    if word == "jours"@ {
        assert forall|k: int| 0 <= k < word.len() implies 'a' <= #[trigger] word[k] <= 'z' by {}
        assert("jours"@[0] != "heure"@[0]);
        lemma_amount_with_word(n, gap, word);
        assert(duration_unit(word) == Some(86400int));
    }
    if word.len() > 0 && forall|k: int| 0 <= k < word.len() ==> 'a' <= #[trigger] word[k] <= 'z' {
        lemma_amount_with_word(n, gap, word);
    }
}

/// A bare number is that many seconds, never less than one; it is read as
/// it stands.
pub proof fn lemma_duration_bare_number(n: u64)
    ensures
        duration_text_seconds(decimal(n as nat)) == Some(
            if n < 1 {
                1int
            } else {
                n as int
            },
        ),
        is_ascii_seq(decimal(n as nat)),
        ascii_lower_seq(trim_seq(decimal(n as nat))) == decimal(n as nat),
{
    let d = decimal(n as nat);
    lemma_decimal_all_digits(n as nat);
    lemma_parse_u64_decimal(n);
    assert forall|k: int| 0 <= k < d.len() implies is_digit(#[trigger] d[k]) by {}
    lemma_number_unit_of(d, 0);
    assert(!digit_after_unit(d));
    assert(duration_unit(Seq::<char>::empty()) == Some(1int));
    assert(n as int * 1 == n as int);
    assert(is_ascii_seq(d)) by {
        assert forall|k: int| 0 <= k < d.len() implies is_ascii_char(#[trigger] d[k]) by {}
    }
    assert(trim_seq(d) == d) by {
        assert(!is_ws(d[0]));
        assert(trim_start_seq(d) == d);
        assert(!is_ws(d.last()));
        assert(trim_end_seq(d) == d);
    }
    assert(ascii_lower_seq(d) =~= d) by {
        assert forall|k: int| 0 <= k < d.len() implies ascii_lower_seq(d)[k] == d[k] by {}
    }
}

/// Reads a typed duration (`10s`, `5 min`, `2h`, `1j`, or a bare number
/// of seconds), in seconds, at least one.
pub fn duration_from_input(input: &str) -> (r: Option<u64>)
    requires
        duration_fits(input@),
    ensures
        match r {
            Some(n) => duration_input_seconds(input@) == Some(n as int),
            None => duration_input_seconds(input@) is None,
        },
        is_ascii_seq(input@) ==> match r {
            Some(n) => duration_text_seconds(ascii_lower_seq(trim_seq(input@))) == Some(n as int),
            None => duration_text_seconds(ascii_lower_seq(trim_seq(input@))) is None,
        },
{
    let raw = normalize(input);
    if raw.len() == 0 {
        return None;
    }
    match duration_parts(&raw) {
        None => None,
        Some((v, f)) => {
            let p = v * f;
            Some(
                if p < 1 {
                    1
                } else {
                    p
                },
            )
        },
    }
}

/// How long a loading animation runs: the typed duration, between one and
/// 120 seconds.
pub open spec fn loading_seconds_spec(input: Seq<char>) -> Option<int> {
    match duration_input_seconds(input) {
        Some(n) => Some(
            if n > 120 {
                120
            } else {
                n
            },
        ),
        None => None,
    }
}

/// The length of a loading animation typed by a user. A duration whose
/// seconds do not fit in 64 bits gives none.
pub fn loading_seconds(input: &str) -> (r: Option<u64>)
    ensures
        duration_fits(input@) ==> match r {
            Some(n) => loading_seconds_spec(input@) == Some(n as int),
            None => loading_seconds_spec(input@) is None,
        },
        !duration_fits(input@) ==> r is None,
        r matches Some(n) ==> 1 <= n <= 120,
{
    if !duration_input_fits(input) {
        return None;
    }
    match duration_from_input(input) {
        Some(n) => Some(
            if n > 120 {
                120
            } else {
                n
            },
        ),
        None => None,
    }
}

/// The pause between two frames of a loading animation of `total`
/// seconds: a tenth of it, at least one second.
pub fn loading_step_seconds(total: u64) -> (r: u64)
    ensures
        r == (if total / 10 < 1 {
            1
        } else {
            total / 10
        }),
{
    let t = total / 10;
    if t < 1 {
        1
    } else {
        t
    }
}

/// Frame `step` (of ten) of a loading animation: the text, a bar of
/// `step` `#` and the rest `-`, and the percentage.
pub open spec fn loading_frame_text(text: Seq<char>, step: nat) -> Seq<char> {
    text + seq![' ', '['] + Seq::new(step, |_i: int| '#') + Seq::new(
        (10 - step) as nat,
        |_i: int| '-',
    ) + seq![']', ' '] + decimal(step * 10) + seq!['%']
}

/// Frame `step` of a loading animation.
pub fn loading_frame(text: &str, step: u64) -> (r: String)
    requires
        step <= 10,
    ensures
        r@ == loading_frame_text(text@, step as nat),
{
    let mut v = chars_of(text);
    v.push(' ');
    v.push('[');
    let ghost head = v@;
    let mut i: u64 = 0;
    while i < step
        invariant
            i <= step <= 10,
            v@ == head + Seq::new(i as nat, |_i: int| '#'),
        decreases step - i,
    {
        v.push('#');
        i += 1;
        assert(v@ =~= head + Seq::new(i as nat, |_i: int| '#'));
    }
    let ghost head2 = v@;
    let mut j: u64 = step;
    while j < 10
        invariant
            step <= j <= 10,
            v@ == head2 + Seq::new((j - step) as nat, |_i: int| '-'),
        decreases 10 - j,
    {
        v.push('-');
        j += 1;
        assert(v@ =~= head2 + Seq::new((j - step) as nat, |_i: int| '-'));
    }
    v.push(']');
    v.push(' ');
    push_decimal(&mut v, step * 10);
    v.push('%');
    assert(v@ =~= loading_frame_text(text@, step as nat));
    string_of(&v)
}

// ---------------------------------------------------------------------------
// Random picks
// ---------------------------------------------------------------------------

/// `SliceRandom::choose` with the thread's generator (`rand::thread_rng`):
/// an item of `items` picked at random, none when `items` is empty. Which
/// item comes out is left open.
#[verifier::external_body]
fn choose_random<T>(items: &[T]) -> (r: Option<&T>)
    ensures
        (items@.len() == 0) == (r is None),
        r matches Some(x) ==> items@.contains(*x),
{
    items.choose(&mut rand::thread_rng())
}

/// The texts of a sequence of strings.
pub open spec fn string_views(v: Seq<String>) -> Seq<Seq<char>> {
    Seq::new(v.len(), |i: int| v[i]@)
}

/// The options among `parts`: each trimmed, the empty ones dropped.
pub open spec fn option_pieces(parts: Seq<Seq<char>>) -> Seq<Seq<char>>
    decreases parts.len(),
{
    if parts.len() == 0 {
        Seq::empty()
    } else {
        let prev = option_pieces(parts.drop_last());
        let t = trim_seq(parts.last());
        if t.len() > 0 {
            prev.push(t)
        } else {
            prev
        }
    }
}

/// Trims each part and keeps those left with a character.
fn trimmed_pieces(parts: &Vec<Vec<char>>) -> (r: Vec<String>)
    ensures
        string_views(r@) == option_pieces(views_of(parts@)),
{
    let mut out: Vec<String> = Vec::new();
    let mut i: usize = 0;
    while i < parts.len()
        invariant
            i <= parts.len(),
            string_views(out@) == option_pieces(views_of(parts@).take(i as int)),
        decreases parts.len() - i,
    {
        let ghost vs = views_of(parts@);
        assert(vs.take(i + 1).drop_last() =~= vs.take(i as int));
        assert(vs.take(i + 1).last() == parts@[i as int]@);
        let t = trim_chars(&parts[i]);
        if t.len() > 0 {
            let ghost before = string_views(out@);
            out.push(string_of(&t));
            assert(string_views(out@) =~= before.push(t@));
        }
        i += 1;
    }
    assert(views_of(parts@).take(parts.len() as int) =~= views_of(parts@));
    out
}

/// The options typed in the form of the `choose` menu: the text split at
/// each `|`, each piece trimmed, the empty ones dropped.
pub fn modal_choose_options(content: &str) -> (r: Vec<String>)
    ensures
        string_views(r@) == option_pieces(split_seq(content@, '|')),
{
    let v = chars_of(content);
    let parts = split_chars(&v, '|');
    trimmed_pieces(&parts)
}

/// The options of a `choose` command: its arguments joined by spaces and
/// split at each `|` (each piece trimmed, the empty ones dropped); with
/// fewer than two such pieces, the arguments themselves.
pub open spec fn choose_options_spec(args: Seq<&str>) -> Seq<Seq<char>> {
    let opts = option_pieces(split_seq(join_seq(str_views(args), " "@), '|'));
    if opts.len() < 2 {
        str_views(args)
    } else {
        opts
    }
}

/// The options of a `choose` command.
pub fn choose_options(args: &[&str]) -> (r: Vec<String>)
    ensures
        string_views(r@) == choose_options_spec(args@),
{
    let merged = join_args(args, 0, " ");
    assert(args@.skip(0) =~= args@);
    let v = chars_of(merged.as_str());
    let parts = split_chars(&v, '|');
    let opts = trimmed_pieces(&parts);
    if opts.len() >= 2 {
        return opts;
    }
    let mut out: Vec<String> = Vec::new();
    let mut i: usize = 0;
    while i < args.len()
        invariant
            i <= args@.len(),
            out@.len() == i,
            forall|k: int| 0 <= k < i ==> (#[trigger] out@[k])@ == args@[k]@,
        decreases args.len() - i,
    {
        out.push(String::from_str(args[i]));
        i += 1;
    }
    assert(string_views(out@) =~= str_views(args@));
    out
}

/// Picks one of the options at random; two options at least are needed.
pub fn pick_option(options: &Vec<String>) -> (r: Option<String>)
    ensures
        options@.len() < 2 ==> r is None,
        options@.len() >= 2 ==> (r matches Some(p) && exists|i: int|
            0 <= i < options@.len() && p@ == (#[trigger] options@[i])@),
{
    if options.len() < 2 {
        return None;
    }
    match choose_random(options.as_slice()) {
        Some(p) => {
            let picked = p.clone();
            proof {
                let i = choose|i: int| 0 <= i < options@.len() && options@[i] == *p;
                assert(picked@ == options@[i]@);
            }
            Some(picked)
        },
        None => Some(options[0].clone()),
    }
}

/// The answer to a `choose`: the option picked, in bold.
pub fn choose_result_text(pick: &str) -> (r: String)
    ensures
        r@ == "Résultat: **"@ + pick@ + "**"@,
{
    let mut v: Vec<char> = Vec::new();
    extend_str(&mut v, "Résultat: **");
    extend_str(&mut v, pick);
    extend_str(&mut v, "**");
    string_of(&v)
}

/// No value comes twice, and the values go up.
pub open spec fn strictly_increasing(s: Seq<u64>) -> bool {
    forall|i: int, j: int| 0 <= i < j < s.len() ==> s[i] < s[j]
}

/// The members a giveaway can be rerolled among: those its message
/// mentions, each once, by increasing id.
pub fn reroll_candidates(mentions: &Vec<u64>) -> (r: Vec<u64>)
    ensures
        strictly_increasing(r@),
        forall|x: u64| r@.contains(x) <==> mentions@.contains(x),
{
    let mut out: Vec<u64> = Vec::new();
    let mut i: usize = 0;
    while i < mentions.len()
        invariant
            i <= mentions.len(),
            strictly_increasing(out@),
            forall|x: u64| out@.contains(x) <==> mentions@.take(i as int).contains(x),
        decreases mentions.len() - i,
    {
        let m = mentions[i];
        let mut j: usize = 0;
        while j < out.len() && out[j] < m
            invariant
                j <= out.len(),
                forall|k: int| 0 <= k < j ==> out@[k] < m,
            decreases out.len() - j,
        {
            j += 1;
        }
        let ghost before = out@;
        let ghost t = mentions@.take(i as int);
        assert(mentions@.take(i + 1) =~= t.push(m));
        if j < out.len() && out[j] == m {
            assert(before.contains(m));
            assert forall|x: u64| out@.contains(x) <==> before.contains(x) || x == m by {}
        } else {
            out.insert(j, m);
            assert(out@ =~= before.insert(j as int, m));
            assert forall|a: int, b: int| 0 <= a < b < out@.len() implies out@[a] < out@[b] by {
                if b < j {
                } else if b == j {
                    assert(out@[a] == before[a]);
                } else if a < j {
                    assert(out@[a] == before[a] && out@[b] == before[b - 1]);
                    assert(before[j as int] >= m);
                    if b - 1 > j {
                        assert(before[j as int] < before[b - 1]);
                    }
                } else if a == j {
                    assert(before[j as int] >= m && before[j as int] != m);
                    if b - 1 > j {
                        assert(before[j as int] < before[b - 1]);
                    }
                } else {
                    assert(out@[a] == before[a - 1] && out@[b] == before[b - 1]);
                }
            }
            assert forall|x: u64| out@.contains(x) <==> before.contains(x) || x == m by {
                if out@.contains(x) {
                    let k = choose|k: int| 0 <= k < out@.len() && out@[k] == x;
                    if k < j {
                        assert(before[k] == x);
                    } else if k > j {
                        assert(before[k - 1] == x);
                    }
                }
                if before.contains(x) {
                    let k = choose|k: int| 0 <= k < before.len() && before[k] == x;
                    if k < j {
                        assert(out@[k] == x);
                    } else {
                        assert(out@[k + 1] == x);
                    }
                }
                if x == m {
                    assert(out@[j as int] == m);
                }
            }
        }
        proof {
            assert forall|x: u64| t.push(m).contains(x) <==> t.contains(x) || x == m by {
                if t.push(m).contains(x) {
                    let k = choose|k: int| 0 <= k < t.push(m).len() && t.push(m)[k] == x;
                    if k < t.len() {
                        assert(t[k] == x);
                    }
                }
                if t.contains(x) {
                    let k = choose|k: int| 0 <= k < t.len() && t[k] == x;
                    assert(t.push(m)[k] == x);
                }
                if x == m {
                    assert(t.push(m)[t.len() as int] == m);
                }
            }
            assert forall|x: u64| out@.contains(x) <==> mentions@.take(i + 1).contains(x) by {
                assert(before.contains(x) <==> t.contains(x));
            }
        }
        i += 1;
    }
    assert(mentions@.take(mentions.len() as int) =~= mentions@);
    out
}

/// The new winner of a giveaway: one of the members its message
/// mentions, at random; none when it mentions nobody.
pub fn reroll_winner(mentions: &Vec<u64>) -> (r: Option<u64>)
    ensures
        (mentions@.len() == 0) == (r is None),
        r matches Some(w) ==> mentions@.contains(w),
{
    let candidates = reroll_candidates(mentions);
    if candidates.len() == 0 {
        proof {
            if mentions@.len() > 0 {
                assert(mentions@.contains(mentions@[0]));
            }
        }
        return None;
    }
    proof {
        assert(candidates@.contains(candidates@[0]));
    }
    match choose_random(candidates.as_slice()) {
        Some(w) => Some(*w),
        None => Some(candidates[0]),
    }
}

// ---------------------------------------------------------------------------
// Emoji images
// ---------------------------------------------------------------------------

/// The character of a six-bit value in the standard base64 alphabet:
/// `A`-`Z`, `a`-`z`, `0`-`9`, `+`, `/`.
pub open spec fn base64_digit(v: int) -> char {
    if v < 26 {
        (('A' as int) + v) as char
    } else if v < 52 {
        (('a' as int) + v - 26) as char
    } else if v < 62 {
        (('0' as int) + v - 52) as char
    } else if v == 62 {
        '+'
    } else {
        '/'
    }
}

/// The standard, padded base64 text of `bytes` (RFC 4648): each group of
/// three bytes, from the front, gives four characters of six bits each; a
/// last group of one or two bytes is filled with zero bits and padded with
/// `=` to four characters.
pub open spec fn base64_standard(bytes: Seq<u8>) -> Seq<char>
    decreases bytes.len(),
{
    if bytes.len() == 0 {
        Seq::empty()
    } else if bytes.len() == 1 {
        let a = bytes[0] as int;
        seq![base64_digit(a / 4), base64_digit((a % 4) * 16), '=', '=']
    } else if bytes.len() == 2 {
        let a = bytes[0] as int;
        let b = bytes[1] as int;
        seq![base64_digit(a / 4), base64_digit((a % 4) * 16 + b / 16), base64_digit((b % 16) * 4), '=']
    } else {
        let a = bytes[0] as int;
        let b = bytes[1] as int;
        let c = bytes[2] as int;
        seq![
            base64_digit(a / 4),
            base64_digit((a % 4) * 16 + b / 16),
            base64_digit((b % 16) * 4 + c / 64),
            base64_digit(c % 64),
        ] + base64_standard(bytes.skip(3))
    }
}

/// The length of the padded base64 text of `n` bytes.
pub open spec fn base64_len(n: nat) -> nat {
    4 * ((n + 2) / 3)
}

/// The base64 text of `n` bytes has four characters for each three bytes
/// begun.
pub proof fn lemma_base64_len(bytes: Seq<u8>)
    ensures
        base64_standard(bytes).len() == base64_len(bytes.len()),
    decreases bytes.len(),
{
    if bytes.len() >= 3 {
        lemma_base64_len(bytes.skip(3));
    }
}

/// `Engine::encode` of the standard engine
/// (`base64::engine::general_purpose::STANDARD`, standard alphabet with
/// padding): the padded base64 text of the bytes. The engine panics when
/// the length of that text does not fit in a `usize`, so such input is
/// left out.
#[verifier::external_body]
fn encode_base64(bytes: &[u8]) -> (r: String)
    requires
        base64_len(bytes@.len()) <= usize::MAX,
    ensures
        r@ == base64_standard(bytes@),
{
    base64::engine::general_purpose::STANDARD.encode(bytes)
}

/// A PNG data URI around base64 text.
pub fn data_uri_of(encoded: &str) -> (r: String)
    ensures
        r@ == "data:image/png;base64,"@ + encoded@,
{
    let mut v: Vec<char> = Vec::new();
    extend_str(&mut v, "data:image/png;base64,");
    extend_str(&mut v, encoded);
    string_of(&v)
}

/// The data URI under which downloaded image bytes are sent to create an
/// emoji.
pub fn emoji_data_uri(bytes: &Vec<u8>) -> (r: String)
    requires
        base64_len(bytes@.len()) <= usize::MAX,
    ensures
        r@ == "data:image/png;base64,"@ + base64_standard(bytes@),
{
    let encoded = encode_base64(bytes.as_slice());
    data_uri_of(encoded.as_str())
}

/// A bracket of a custom emoji mention.
pub open spec fn is_angle(c: char) -> bool {
    c == '<' || c == '>'
}

/// `s` without its leading brackets.
pub open spec fn strip_angles_start(s: Seq<char>) -> Seq<char>
    decreases s.len(),
{
    if s.len() > 0 && is_angle(s[0]) {
        strip_angles_start(s.drop_first())
    } else {
        s
    }
}

/// `s` without its trailing brackets.
pub open spec fn strip_angles_end(s: Seq<char>) -> Seq<char>
    decreases s.len(),
{
    if s.len() > 0 && is_angle(s.last()) {
        strip_angles_end(s.drop_last())
    } else {
        s
    }
}

/// `s` without the brackets at either end (`trim_matches` on `<` and `>`).
pub open spec fn trim_angles(s: Seq<char>) -> Seq<char> {
    strip_angles_end(strip_angles_start(s))
}

fn trim_angles_chars(s: &Vec<char>) -> (r: Vec<char>)
    ensures
        r@ == trim_angles(s@),
{
    let n = s.len();
    let mut lo: usize = 0;
    assert(s@.subrange(0, n as int) =~= s@);
    while lo < n && (s[lo] == '<' || s[lo] == '>')
        invariant
            lo <= n,
            n == s.len(),
            strip_angles_start(s@) == strip_angles_start(s@.subrange(lo as int, n as int)),
        decreases n - lo,
    {
        assert(s@.subrange(lo as int, n as int).drop_first() =~= s@.subrange(lo + 1, n as int));
        lo += 1;
    }
    let mut hi: usize = n;
    while hi > lo && (s[hi - 1] == '<' || s[hi - 1] == '>')
        invariant
            lo <= hi <= n,
            n == s.len(),
            trim_angles(s@) == strip_angles_end(s@.subrange(lo as int, hi as int)),
        decreases hi,
    {
        assert(s@.subrange(lo as int, hi as int).drop_last() =~= s@.subrange(lo as int, hi - 1));
        hi -= 1;
    }
    crate::text::slice_chars(s, lo, hi)
}

/// The image of a custom emoji on the chat's content network.
pub open spec fn emoji_cdn_url(id: Seq<char>, animated: bool) -> Seq<char> {
    "https://cdn.discordapp.com/emojis/"@ + id + "."@ + (if animated {
        "gif"@
    } else {
        "png"@
    })
}

/// Where the image of a new emoji comes from: a link as it is; a custom
/// emoji `<:name:id>` or `<a:name:id>`, its image (animated for `a`); else
/// the first file attached to the message, or nothing.
pub open spec fn emoji_url_spec(source: Seq<char>, attachment: Option<Seq<char>>) -> Seq<char> {
    let parts = split_seq(trim_angles(source), ':');
    if starts_with_seq(source, "http://"@) || starts_with_seq(source, "https://"@) {
        source
    } else if (starts_with_seq(source, "<:"@) || starts_with_seq(source, "<a:"@)) && parts.len()
        == 3 {
        emoji_cdn_url(parts[2], parts[0] == "a"@)
    } else {
        match attachment {
            Some(url) => url,
            None => Seq::empty(),
        }
    }
}

/// The image to make an emoji from.
pub fn emoji_url_from_source(source: &str, first_attachment: Option<&str>) -> (r: String)
    ensures
        r@ == emoji_url_spec(source@, match first_attachment {
            Some(a) => Some(a@),
            None => None,
        }),
{
    let v = chars_of(source);
    if starts_with_str(&v, "http://") || starts_with_str(&v, "https://") {
        return String::from_str(source);
    }
    if starts_with_str(&v, "<:") || starts_with_str(&v, "<a:") {
        let cleaned = trim_angles_chars(&v);
        let parts = split_chars(&cleaned, ':');
        if parts.len() == 3 {
            assert(parts@[2]@ == split_seq(trim_angles(source@), ':')[2]);
            assert(parts@[0]@ == split_seq(trim_angles(source@), ':')[0]);
            let animated = chars_are(&parts[0], "a");
            let mut out: Vec<char> = Vec::new();
            extend_str(&mut out, "https://cdn.discordapp.com/emojis/");
            crate::text::extend_chars(&mut out, &parts[2]);
            extend_str(&mut out, ".");
            if animated {
                extend_str(&mut out, "gif");
            } else {
                extend_str(&mut out, "png");
            }
            return string_of(&out);
        }
    }
    match first_attachment {
        Some(a) => String::from_str(a),
        None => String::new(),
    }
}

// ---------------------------------------------------------------------------
// Colours
// ---------------------------------------------------------------------------

pub open spec fn is_hex_digit(c: char) -> bool {
    is_digit(c) || ('a' <= c && c <= 'f') || ('A' <= c && c <= 'F')
}

pub open spec fn hex_val(c: char) -> int {
    if is_digit(c) {
        (c as int) - ('0' as int)
    } else if 'a' <= c && c <= 'f' {
        (c as int) - ('a' as int) + 10
    } else {
        (c as int) - ('A' as int) + 10
    }
}

/// The value of hexadecimal digits.
pub open spec fn hex_value(s: Seq<char>) -> nat
    decreases s.len(),
{
    if s.len() == 0 {
        0
    } else {
        (hex_value(s.drop_last()) * 16 + hex_val(s.last())) as nat
    }
}

/// Every character is a hexadecimal digit.
pub open spec fn all_hex(d: Seq<char>) -> bool {
    forall|i: int| 0 <= i < d.len() ==> is_hex_digit(#[trigger] d[i])
}

/// `u32::from_str_radix(s, 16)`: hexadecimal digits, after an optional
/// `+`, whose value fits in 32 bits.
pub open spec fn radix16_u32(s: Seq<char>) -> Option<u32> {
    let d = if s.len() > 0 && s[0] == '+' {
        s.drop_first()
    } else {
        s
    };
    if d.len() == 0 || !all_hex(d) {
        None
    } else if hex_value(d) <= u32::MAX {
        Some(hex_value(d) as u32)
    } else {
        None
    }
}

/// `s` without its leading `0x` prefixes (`trim_start_matches("0x")`).
pub open spec fn strip_hex_prefix(s: Seq<char>) -> Seq<char>
    decreases s.len(),
{
    if s.len() >= 2 && s[0] == '0' && s[1] == 'x' {
        strip_hex_prefix(s.skip(2))
    } else {
        s
    }
}

/// The colour typed in the embed form: trimmed, without leading `#` and
/// `0x`, read in hexadecimal.
pub open spec fn embed_color_spec(raw: Seq<char>) -> Option<u32> {
    radix16_u32(strip_hex_prefix(strip_start(trim_seq(raw), '#')))
}

fn hex_digit_value(c: char) -> (r: Option<u32>)
    ensures
        match r {
            Some(v) => is_hex_digit(c) && v == hex_val(c),
            None => !is_hex_digit(c),
        },
{
    if '0' <= c && c <= '9' {
        Some((c as u32) - ('0' as u32))
    } else if 'a' <= c && c <= 'f' {
        Some((c as u32) - ('a' as u32) + 10)
    } else if 'A' <= c && c <= 'F' {
        Some((c as u32) - ('A' as u32) + 10)
    } else {
        None
    }
}

/// `u32::from_str_radix(s, 16)` on characters.
fn parse_radix16_u32(s: &Vec<char>) -> (r: Option<u32>)
    ensures
        r == radix16_u32(s@),
{
    let start: usize = if s.len() > 0 && s[0] == '+' {
        1
    } else {
        0
    };
    let ghost d = if s@.len() > 0 && s@[0] == '+' {
        s@.drop_first()
    } else {
        s@
    };
    assert(d =~= s@.skip(start as int));
    if start == s.len() {
        return None;
    }
    let mut acc: u64 = 0;
    let mut over = false;
    let mut i: usize = start;
    while i < s.len()
        invariant
            start <= i <= s.len(),
            d == s@.skip(start as int),
            d == (if s@.len() > 0 && s@[0] == '+' {
                s@.drop_first()
            } else {
                s@
            }),
            forall|k: int| 0 <= k < i - start ==> is_hex_digit(#[trigger] d[k]),
            !over ==> acc == hex_value(d.take(i - start)) && acc <= u32::MAX,
            over ==> hex_value(d.take(i - start)) > u32::MAX,
        decreases s.len() - i,
    {
        let c = s[i];
        assert(d[i - start] == c);
        assert(d.take(i + 1 - start).drop_last() =~= d.take(i - start));
        match hex_digit_value(c) {
            None => {
                assert(!is_hex_digit(d[i - start]));
                assert(!all_hex(d));
                return None;
            },
            Some(v) => {
                if !over {
                    let next = acc * 16 + v as u64;
                    if next > 0xFFFF_FFFF {
                        over = true;
                    } else {
                        acc = next;
                    }
                }
            },
        }
        i += 1;
    }
    assert(d.take(s.len() - start) =~= d);
    if over {
        None
    } else {
        Some(acc as u32)
    }
}

/// `s` without its leading `0x` prefixes.
fn strip_hex_prefix_chars(s: &Vec<char>) -> (r: Vec<char>)
    ensures
        r@ == strip_hex_prefix(s@),
{
    let mut lo: usize = 0;
    assert(s@.skip(0) =~= s@);
    while lo < s.len() && s.len() - lo >= 2 && s[lo] == '0' && s[lo + 1] == 'x'
        invariant
            lo <= s.len(),
            strip_hex_prefix(s@) == strip_hex_prefix(s@.skip(lo as int)),
        decreases s.len() - lo,
    {
        assert(s@.skip(lo as int).skip(2) =~= s@.skip(lo + 2));
        lo += 2;
    }
    let r = crate::text::slice_chars(s, lo, s.len());
    assert(r@ =~= s@.skip(lo as int));
    r
}

/// The colour typed in the embed form, when it is one.
pub fn parse_embed_color(raw: &str) -> (r: Option<u32>)
    ensures
        r == embed_color_spec(raw@),
{
    let v = chars_of(raw);
    let t = trim_chars(&v);
    let h = strip_start_chars(&t, '#');
    let x = strip_hex_prefix_chars(&h);
    parse_radix16_u32(&x)
}

// ---------------------------------------------------------------------------
// Giveaways
// ---------------------------------------------------------------------------

/// The text of an optional form value, or `default`.
pub open spec fn value_or(v: Option<Seq<char>>, default: Seq<char>) -> Seq<char> {
    match v {
        Some(t) => t,
        None => default,
    }
}

pub open spec fn opt_view(v: Option<&str>) -> Option<Seq<char>> {
    match v {
        Some(t) => Some(t@),
        None => None,
    }
}

/// The title of a giveaway announced from the form (`Giveaway` when the
/// form has none).
pub fn giveaway_title(title: Option<&str>) -> (r: String)
    ensures
        r@ == "🎉 "@ + value_or(opt_view(title), "Giveaway"@),
{
    let mut v: Vec<char> = Vec::new();
    extend_str(&mut v, "🎉 ");
    match title {
        Some(t) => extend_str(&mut v, t),
        None => extend_str(&mut v, "Giveaway"),
    }
    string_of(&v)
}

/// The description of a giveaway announced from the form: its duration
/// (`10m` by default) and its number of winners (`1` by default).
pub fn giveaway_description(duration: Option<&str>, winners: Option<&str>) -> (r: String)
    ensures
        r@ == "Clique sur le bouton pour participer.\nDurée: **"@ + value_or(
            opt_view(duration),
            "10m"@,
        ) + "**\nGagnants: **"@ + value_or(opt_view(winners), "1"@) + "**"@,
{
    let mut v: Vec<char> = Vec::new();
    extend_str(&mut v, "Clique sur le bouton pour participer.\nDurée: **");
    match duration {
        Some(d) => extend_str(&mut v, d),
        None => extend_str(&mut v, "10m"),
    }
    extend_str(&mut v, "**\nGagnants: **");
    match winners {
        Some(w) => extend_str(&mut v, w),
        None => extend_str(&mut v, "1"),
    }
    extend_str(&mut v, "**");
    string_of(&v)
}

/// The message a giveaway-ending form names: its trimmed value read as a
/// number.
pub fn giveaway_end_id(raw: Option<&str>) -> (r: Option<u64>)
    ensures
        r == match raw {
            Some(t) => parse_u64_spec(trim_seq(t@)),
            None => None,
        },
{
    match raw {
        Some(t) => {
            let v = chars_of(t);
            let w = trim_chars(&v);
            parse_u64_chars(&w)
        },
        None => None,
    }
}

/// What an `end` command asks for.
#[derive(Clone, Copy, Debug, PartialEq, Eq, Structural)]
pub enum EndRequest {
    /// No argument: show the menu.
    Menu,
    /// `end giveaway` without a message id.
    Usage,
    /// The message id is not a number.
    InvalidId,
    /// End the giveaway of this message.
    End(u64),
    /// Anything else: nothing is done.
    Ignore,
}

/// How an `end` command is read: `end giveaway <message id>`.
pub open spec fn end_request_spec(args: Seq<&str>) -> EndRequest {
    if args.len() == 0 {
        EndRequest::Menu
    } else if !crate::text::eq_ignore_ascii_case_seq(args[0]@, "giveaway"@) {
        EndRequest::Ignore
    } else if args.len() < 2 {
        EndRequest::Usage
    } else {
        match parse_u64_spec(args[1]@) {
            Some(id) => EndRequest::End(id),
            None => EndRequest::InvalidId,
        }
    }
}

/// Reads the arguments of an `end` command.
pub fn end_request(args: &[&str]) -> (r: EndRequest)
    ensures
        r == end_request_spec(args@),
{
    if args.len() == 0 {
        return EndRequest::Menu;
    }
    if !crate::text::eq_ignore_ascii_case(args[0], "giveaway") {
        return EndRequest::Ignore;
    }
    if args.len() < 2 {
        return EndRequest::Usage;
    }
    let v = chars_of(args[1]);
    match parse_u64_chars(&v) {
        Some(id) => EndRequest::End(id),
        None => EndRequest::InvalidId,
    }
}

// ---------------------------------------------------------------------------
// Channels
// ---------------------------------------------------------------------------

/// What a channel argument becomes once the mention marks are taken off:
/// spaces around, then every leading `<`, every trailing `>`, and every
/// leading `#`.
pub open spec fn channel_mention_body(input: Seq<char>) -> Seq<char> {
    strip_start(strip_end(strip_start(trim_seq(input), '<'), '>'), '#')
}

/// The channel a channel argument names (`<#id>` or `id`).
pub fn parse_channel_id(input: &str) -> (r: Option<u64>)
    ensures
        r == parse_u64_spec(channel_mention_body(input@)),
{
    let v = chars_of(input);
    let a = trim_chars(&v);
    let b = strip_start_chars(&a, '<');
    let c = strip_end_chars(&b, '>');
    let d = strip_start_chars(&c, '#');
    parse_u64_chars(&d)
}

// ---------------------------------------------------------------------------
// Voice channels and members
// ---------------------------------------------------------------------------

/// The members whose voice state is in `channel`, in the order of the
/// states.
pub open spec fn members_in_channel_spec(states: Seq<(u64, Option<u64>)>, channel: u64) -> Seq<
    u64,
>
    decreases states.len(),
{
    if states.len() == 0 {
        Seq::empty()
    } else {
        let prev = members_in_channel_spec(states.drop_last(), channel);
        if states.last().1 == Some(channel) {
            prev.push(states.last().0)
        } else {
            prev
        }
    }
}

/// The members in voice channel `channel`, from the voice states (member,
/// channel) of a server.
pub fn members_in_channel(states: &Vec<(u64, Option<u64>)>, channel: u64) -> (r: Vec<u64>)
    ensures
        r@ == members_in_channel_spec(states@, channel),
{
    let mut out: Vec<u64> = Vec::new();
    let mut i: usize = 0;
    while i < states.len()
        invariant
            i <= states.len(),
            out@ == members_in_channel_spec(states@.take(i as int), channel),
        decreases states.len() - i,
    {
        assert(states@.take(i + 1).drop_last() =~= states@.take(i as int));
        let (member, at) = states[i];
        if at == Some(channel) {
            out.push(member);
        }
        i += 1;
    }
    assert(states@.take(states.len() as int) =~= states@);
    out
}

/// The members in some voice channel, in the order of the states.
pub open spec fn members_in_voice_spec(states: Seq<(u64, Option<u64>)>) -> Seq<u64>
    decreases states.len(),
{
    if states.len() == 0 {
        Seq::empty()
    } else {
        let prev = members_in_voice_spec(states.drop_last());
        if states.last().1 is Some {
            prev.push(states.last().0)
        } else {
            prev
        }
    }
}

/// The members in any voice channel of a server.
pub fn members_in_voice(states: &Vec<(u64, Option<u64>)>) -> (r: Vec<u64>)
    ensures
        r@ == members_in_voice_spec(states@),
{
    let mut out: Vec<u64> = Vec::new();
    let mut i: usize = 0;
    while i < states.len()
        invariant
            i <= states.len(),
            out@ == members_in_voice_spec(states@.take(i as int)),
        decreases states.len() - i,
    {
        assert(states@.take(i + 1).drop_last() =~= states@.take(i as int));
        let (member, at) = states[i];
        if at.is_some() {
            out.push(member);
        }
        i += 1;
    }
    assert(states@.take(states.len() as int) =~= states@);
    out
}

/// Where a `bringall` moves everyone: the channel named in the argument,
/// or else the voice channel of the author.
pub fn bringall_target(arg: Option<&str>, author_channel: Option<u64>) -> (r: Option<u64>)
    ensures
        r == match arg {
            Some(a) => parse_u64_spec(channel_mention_body(a@)),
            None => author_channel,
        },
{
    match arg {
        Some(a) => parse_channel_id(a),
        None => author_channel,
    }
}

/// Whether a mass role change applies to a member: always without a
/// filter role, else when the member has the filter role.
pub fn massive_role_applies(filter_role: Option<u64>, member_roles: &Vec<u64>) -> (r: bool)
    ensures
        r == match filter_role {
            Some(f) => member_roles@.contains(f),
            None => true,
        },
{
    match filter_role {
        None => true,
        Some(f) => {
            let mut i: usize = 0;
            while i < member_roles.len()
                invariant
                    i <= member_roles.len(),
                    filter_role == Some(f),
                    forall|k: int| 0 <= k < i ==> member_roles@[k] != f,
                decreases member_roles.len() - i,
            {
                if member_roles[i] == f {
                    assert(member_roles@[i as int] == f);
                    return true;
                }
                i += 1;
            }
            false
        },
    }
}

// ---------------------------------------------------------------------------
// Syncing permissions with categories
// ---------------------------------------------------------------------------

/// What the sync tool knows of a channel of the server.
#[derive(Clone, Copy, Debug, PartialEq, Eq, Structural)]
pub struct GuildChannelInfo {
    pub id: u64,
    pub is_category: bool,
    pub parent: Option<u64>,
}

/// The channels a `sync` names.
#[derive(Clone, Copy, Debug, PartialEq, Eq, Structural)]
pub enum SyncScope {
    /// `all`: every channel.
    All,
    /// One channel, or the channels of a category.
    Channel(u64),
    /// An argument that names no channel: nothing.
    Nothing,
}

/// How the scope of a `sync` is read: `all` in any ASCII case, else a
/// channel.
pub open spec fn sync_scope_spec(scope: Seq<char>) -> SyncScope {
    if crate::text::eq_ignore_ascii_case_seq(scope, "all"@) {
        SyncScope::All
    } else {
        match parse_u64_spec(channel_mention_body(scope)) {
            Some(c) => SyncScope::Channel(c),
            None => SyncScope::Nothing,
        }
    }
}

/// Reads the scope of a `sync`.
pub fn sync_scope(scope: &str) -> (r: SyncScope)
    ensures
        r == sync_scope_spec(scope@),
{
    if crate::text::eq_ignore_ascii_case(scope, "all") {
        SyncScope::All
    } else {
        match parse_channel_id(scope) {
            Some(c) => SyncScope::Channel(c),
            None => SyncScope::Nothing,
        }
    }
}

/// The first channel with id `id`.
pub open spec fn find_channel(chs: Seq<GuildChannelInfo>, id: u64) -> Option<GuildChannelInfo>
    decreases chs.len(),
{
    if chs.len() == 0 {
        None
    } else if chs[0].id == id {
        Some(chs[0])
    } else {
        find_channel(chs.drop_first(), id)
    }
}

fn lookup_channel(chs: &Vec<GuildChannelInfo>, id: u64) -> (r: Option<GuildChannelInfo>)
    ensures
        r == find_channel(chs@, id),
{
    let mut i: usize = 0;
    assert(chs@.skip(0) =~= chs@);
    while i < chs.len()
        invariant
            i <= chs.len(),
            find_channel(chs@, id) == find_channel(chs@.skip(i as int), id),
        decreases chs.len() - i,
    {
        assert(chs@.skip(i as int).drop_first() =~= chs@.skip(i + 1));
        if chs[i].id == id {
            return Some(chs[i]);
        }
        i += 1;
    }
    None
}

/// The ids of the channels, in order.
pub open spec fn channel_ids(chs: Seq<GuildChannelInfo>) -> Seq<u64> {
    Seq::new(chs.len(), |i: int| chs[i].id)
}

/// The ids of the channels in category `c`, in order.
pub open spec fn children_of(chs: Seq<GuildChannelInfo>, c: u64) -> Seq<u64>
    decreases chs.len(),
{
    if chs.len() == 0 {
        Seq::empty()
    } else {
        let prev = children_of(chs.drop_last(), c);
        if chs.last().parent == Some(c) {
            prev.push(chs.last().id)
        } else {
            prev
        }
    }
}

/// The channels a scope covers: all of them; a category's channels; or
/// the one channel named.
pub open spec fn sync_ids(scope: SyncScope, chs: Seq<GuildChannelInfo>) -> Seq<u64> {
    match scope {
        SyncScope::All => channel_ids(chs),
        SyncScope::Channel(c) => match find_channel(chs, c) {
            Some(ch) => if ch.is_category {
                children_of(chs, c)
            } else {
                seq![c]
            },
            None => seq![c],
        },
        SyncScope::Nothing => Seq::empty(),
    }
}

/// Each covered channel that exists and whose category exists, with that
/// category: the channel takes its category's permissions.
pub open spec fn sync_pairs(ids: Seq<u64>, chs: Seq<GuildChannelInfo>) -> Seq<(u64, u64)>
    decreases ids.len(),
{
    if ids.len() == 0 {
        Seq::empty()
    } else {
        let prev = sync_pairs(ids.drop_last(), chs);
        match find_channel(chs, ids.last()) {
            Some(ch) => match ch.parent {
                Some(p) => if find_channel(chs, p) is Some {
                    prev.push((ids.last(), p))
                } else {
                    prev
                },
                None => prev,
            },
            None => prev,
        }
    }
}

fn scope_ids(scope: SyncScope, chs: &Vec<GuildChannelInfo>) -> (r: Vec<u64>)
    ensures
        r@ == sync_ids(scope, chs@),
{
    match scope {
        SyncScope::All => {
            let mut out: Vec<u64> = Vec::new();
            let mut i: usize = 0;
            while i < chs.len()
                invariant
                    i <= chs.len(),
                    out@ == channel_ids(chs@).take(i as int),
                decreases chs.len() - i,
            {
                out.push(chs[i].id);
                i += 1;
                assert(out@ =~= channel_ids(chs@).take(i as int));
            }
            assert(channel_ids(chs@).take(chs.len() as int) =~= channel_ids(chs@));
            out
        },
        SyncScope::Channel(c) => {
            let is_category = match lookup_channel(chs, c) {
                Some(ch) => ch.is_category,
                None => false,
            };
            if is_category {
                let mut out: Vec<u64> = Vec::new();
                let mut i: usize = 0;
                while i < chs.len()
                    invariant
                        i <= chs.len(),
                        out@ == children_of(chs@.take(i as int), c),
                    decreases chs.len() - i,
                {
                    assert(chs@.take(i + 1).drop_last() =~= chs@.take(i as int));
                    if chs[i].parent == Some(c) {
                        out.push(chs[i].id);
                    }
                    i += 1;
                }
                assert(chs@.take(chs.len() as int) =~= chs@);
                out
            } else {
                let mut out: Vec<u64> = Vec::new();
                out.push(c);
                assert(out@ =~= seq![c]);
                out
            }
        },
        SyncScope::Nothing => Vec::new(),
    }
}

/// The channels a `sync` updates, each with the category whose
/// permissions it takes.
pub fn sync_targets(scope: SyncScope, chs: &Vec<GuildChannelInfo>) -> (r: Vec<(u64, u64)>)
    ensures
        r@ == sync_pairs(sync_ids(scope, chs@), chs@),
{
    let ids = scope_ids(scope, chs);
    let mut out: Vec<(u64, u64)> = Vec::new();
    let mut i: usize = 0;
    while i < ids.len()
        invariant
            i <= ids.len(),
            out@ == sync_pairs(ids@.take(i as int), chs@),
        decreases ids.len() - i,
    {
        assert(ids@.take(i + 1).drop_last() =~= ids@.take(i as int));
        let id = ids[i];
        match lookup_channel(chs, id) {
            Some(ch) => match ch.parent {
                Some(p) => {
                    if lookup_channel(chs, p).is_some() {
                        out.push((id, p));
                    }
                },
                None => {},
            },
            None => {},
        }
        i += 1;
    }
    assert(ids@.take(ids.len() as int) =~= ids@);
    out
}

// ---------------------------------------------------------------------------
// Maintenance
// ---------------------------------------------------------------------------

/// The least time between two maintenance runs, in milliseconds.
pub open spec fn maintenance_gap_ms() -> int {
    30_000
}

/// Whether the maintenance is due at `now_ms` after a last run at `last`.
pub open spec fn maintenance_due(last: Option<u64>, now_ms: u64) -> bool {
    match last {
        None => true,
        Some(l) => now_ms >= l + maintenance_gap_ms(),
    }
}

/// When the periodic maintenance (expired temporary roles, automatic
/// backups) last ran, in milliseconds of a monotonic clock.
pub struct MaintenanceClock {
    pub last_run_ms: Option<u64>,
}

impl MaintenanceClock {
    /// A clock that has never run: the first tick runs.
    pub fn new() -> (c: Self)
        ensures
            c.last_run_ms is None,
    {
        MaintenanceClock { last_run_ms: None }
    }

    /// Whether the maintenance runs at `now_ms`: the first time, and then
    /// once 30 seconds at least have passed since the last run (a clock
    /// that went back counts as no time passed). A run is recorded.
    pub fn tick(&mut self, now_ms: u64) -> (run: bool)
        ensures
            run == maintenance_due(old(self).last_run_ms, now_ms),
            run ==> final(self).last_run_ms == Some(now_ms),
            !run ==> final(self).last_run_ms == old(self).last_run_ms,
    {
        let due = match self.last_run_ms {
            None => true,
            Some(last) => now_ms >= last && now_ms - last >= 30_000,
        };
        if due {
            self.last_run_ms = Some(now_ms);
        }
        due
    }
}

/// Two runs of the maintenance are 30 seconds apart at least: right after
/// a run, no tick before 30 seconds have passed runs it again.
pub proof fn lemma_maintenance_spacing(run_at: u64, now_ms: u64)
    ensures
        maintenance_due(Some(run_at), now_ms) <==> now_ms >= run_at + maintenance_gap_ms(),
        maintenance_due(None, now_ms),
{
}

// ---------------------------------------------------------------------------
// Auto-reactions
// ---------------------------------------------------------------------------

/// What an `autoreact` command asks for.
#[derive(Debug, PartialEq, Eq)]
pub enum AutoreactRequest {
    /// No argument: show the menu.
    Menu,
    /// List the auto-reactions of the server.
    List,
    /// React with an emoji in a channel.
    Add(u64, String),
    /// Stop reacting with an emoji in a channel.
    Del(u64, String),
    /// Another action with a channel and an emoji: nothing changes, and
    /// the update is acknowledged.
    Other,
    /// Too few arguments, or no channel: nothing is done.
    Ignore,
}

/// How an `autoreact` command is read: `list`, or `add`/`del` with a
/// channel and an emoji (the action in any case).
pub open spec fn autoreact_request_spec(args: Seq<&str>, r: AutoreactRequest) -> bool {
    if args.len() == 0 {
        r is Menu
    } else {
        let action = crate::text::str_lowercase(args[0]@);
        if action == "list"@ {
            r is List
        } else if args.len() < 3 {
            r is Ignore
        } else {
            match parse_u64_spec(channel_mention_body(args[1]@)) {
                None => r is Ignore,
                Some(c) => if action == "add"@ {
                    r matches AutoreactRequest::Add(rc, e) && rc == c && e@ == args[2]@
                } else if action == "del"@ {
                    r matches AutoreactRequest::Del(rc, e) && rc == c && e@ == args[2]@
                } else {
                    r is Other
                },
            }
        }
    }
}

/// Reads the arguments of an `autoreact` command.
pub fn autoreact_request(args: &[&str]) -> (r: AutoreactRequest)
    ensures
        autoreact_request_spec(args@, r),
{
    if args.len() == 0 {
        return AutoreactRequest::Menu;
    }
    let first = chars_of(args[0]);
    let action = crate::text::lowercase_chars(&first);
    if chars_are(&action, "list") {
        return AutoreactRequest::List;
    }
    if args.len() < 3 {
        return AutoreactRequest::Ignore;
    }
    match parse_channel_id(args[1]) {
        None => AutoreactRequest::Ignore,
        Some(c) => {
            if chars_are(&action, "add") {
                AutoreactRequest::Add(c, String::from_str(args[2]))
            } else if chars_are(&action, "del") {
                AutoreactRequest::Del(c, String::from_str(args[2]))
            } else {
                AutoreactRequest::Other
            }
        },
    }
}

/// The channel and emoji typed in an auto-reaction form (each trimmed;
/// missing values count as empty); none when the channel is not one.
pub fn autoreact_form(channel: Option<&str>, emoji: Option<&str>) -> (r: Option<(u64, String)>)
    ensures
        match r {
            Some((c, e)) => parse_u64_spec(
                channel_mention_body(trim_seq(value_or(opt_view(channel), Seq::empty()))),
            ) == Some(c) && e@ == trim_seq(value_or(opt_view(emoji), Seq::empty())),
            None => parse_u64_spec(
                channel_mention_body(trim_seq(value_or(opt_view(channel), Seq::empty()))),
            ) is None,
        },
{
    let raw_channel = match channel {
        Some(c) => chars_of(c),
        None => Vec::new(),
    };
    let raw_emoji = match emoji {
        Some(e) => chars_of(e),
        None => Vec::new(),
    };
    let trimmed = trim_chars(&raw_channel);
    let text = string_of(&trimmed);
    match parse_channel_id(text.as_str()) {
        None => None,
        Some(c) => {
            let e = trim_chars(&raw_emoji);
            Some((c, string_of(&e)))
        },
    }
}

/// One line of the list of auto-reactions.
pub open spec fn autoreact_line(channel: i64, emoji: Seq<char>) -> Seq<char> {
    "- <#"@ + signed_decimal(channel as int) + "> -> "@ + emoji
}

/// The list of auto-reactions, a line each, or a note that there are none.
pub open spec fn autoreact_list_spec(rows: Seq<(i64, String)>) -> Seq<char> {
    if rows.len() == 0 {
        "Aucun autoreact configuré."@
    } else {
        join_seq(Seq::new(rows.len(), |i: int| autoreact_line(rows[i].0, rows[i].1@)), "\n"@)
    }
}

/// Writes the list of auto-reactions (channel, emoji).
pub fn autoreact_list_text(rows: &Vec<(i64, String)>) -> (r: String)
    ensures
        r@ == autoreact_list_spec(rows@),
{
    if rows.len() == 0 {
        return String::from_str("Aucun autoreact configuré.");
    }
    let mut lines: Vec<Vec<char>> = Vec::new();
    let mut i: usize = 0;
    while i < rows.len()
        invariant
            i <= rows.len(),
            lines@.len() == i,
            forall|k: int|
                0 <= k < i ==> (#[trigger] lines@[k])@ == autoreact_line(rows@[k].0, rows@[k].1@),
        decreases rows.len() - i,
    {
        let mut v: Vec<char> = Vec::new();
        extend_str(&mut v, "- <#");
        push_signed_decimal(&mut v, rows[i].0);
        extend_str(&mut v, "> -> ");
        extend_str(&mut v, rows[i].1.as_str());
        lines.push(v);
        i += 1;
    }
    assert(views_of(lines@) =~= Seq::new(
        rows@.len(),
        |k: int| autoreact_line(rows@[k].0, rows@[k].1@),
    ));
    let joined = crate::text::join_chars(&lines, "\n");
    string_of(&joined)
}

// ---------------------------------------------------------------------------
// Loading animations
// ---------------------------------------------------------------------------

/// What a `loading` command asks for.
#[derive(Debug, PartialEq, Eq)]
pub enum LoadingRequest {
    /// Fewer than two arguments: show the menu.
    Menu,
    /// Run the animation for that many seconds with that text.
    Run(u64, String),
    /// The duration is not one: nothing is done.
    Ignore,
}

/// Reads the arguments of a `loading` command: a duration, then the text.
pub fn loading_request(args: &[&str]) -> (r: LoadingRequest)
    ensures
        args@.len() < 2 ==> r is Menu,
        args@.len() >= 2 && duration_fits(args@[0]@) ==> match r {
            LoadingRequest::Run(secs, text) => loading_seconds_spec(args@[0]@) == Some(secs as int)
                && text@ == join_seq(str_views(args@.skip(1)), " "@),
            LoadingRequest::Ignore => loading_seconds_spec(args@[0]@) is None,
            LoadingRequest::Menu => false,
        },
        args@.len() >= 2 && !duration_fits(args@[0]@) ==> r is Ignore,
{
    if args.len() < 2 {
        return LoadingRequest::Menu;
    }
    match loading_seconds(args[0]) {
        Some(secs) => LoadingRequest::Run(secs, join_args(args, 1, " ")),
        None => LoadingRequest::Ignore,
    }
}

// ---------------------------------------------------------------------------
// Reactions
// ---------------------------------------------------------------------------

/// Whether the chat library reads a text as a reaction emoji: any text
/// that does not start with `<` is a Unicode emoji; one that does is a
/// custom emoji `<a:name:id>` when it ends with `>` and, its brackets
/// trimmed, its third `:`-separated piece is a non-zero id (an optional
/// `+`, then decimal digits).
pub open spec fn reaction_parses(text: Seq<char>) -> bool {
    text.len() > 0 && (text[0] != '<' || (text.last() == '>' && {
        let pieces = split_seq(trim_angles(text), ':');
        pieces.len() >= 3 && match parse_u64_spec(pieces[2]) {
            Some(v) => v != 0,
            None => false,
        }
    }))
}

/// `ReactionType::try_from(&str)` of the chat library succeeds: the text
/// is not empty, and either does not start with `<` or, ending with `>`,
/// holds a custom emoji whose id piece (the third, after trimming the
/// brackets and splitting on `:`) parses as a non-zero `u64`.
#[verifier::external_body]
fn parses_as_reaction(text: &str) -> (r: bool)
    ensures
        r == reaction_parses(text@),
{
    serenity::all::ReactionType::try_from(text).is_ok()
}

/// The emojis kept, in order: those whose flag is set.
pub open spec fn kept_reactions(emojis: Seq<String>, parses: Seq<bool>) -> Seq<Seq<char>>
    decreases emojis.len(),
{
    if emojis.len() == 0 {
        Seq::empty()
    } else {
        let prev = kept_reactions(emojis.drop_last(), parses);
        if parses[emojis.len() - 1] {
            prev.push(emojis.last()@)
        } else {
            prev
        }
    }
}

/// The emojis to react with, given for each whether it reads as a
/// reaction.
pub fn select_reactions(emojis: &Vec<String>, parses: &Vec<bool>) -> (r: Vec<String>)
    requires
        parses@.len() == emojis@.len(),
    ensures
        string_views(r@) == kept_reactions(emojis@, parses@),
{
    let mut out: Vec<String> = Vec::new();
    let mut i: usize = 0;
    while i < emojis.len()
        invariant
            i <= emojis.len(),
            parses@.len() == emojis@.len(),
            string_views(out@) == kept_reactions(emojis@.take(i as int), parses@),
        decreases emojis.len() - i,
    {
        assert(emojis@.take(i + 1).drop_last() =~= emojis@.take(i as int));
        if parses[i] {
            let ghost before = string_views(out@);
            out.push(emojis[i].clone());
            assert(string_views(out@) =~= before.push(emojis@[i as int]@));
        }
        i += 1;
    }
    assert(emojis@.take(emojis.len() as int) =~= emojis@);
    out
}

/// The emojis the bot reacts with to a message in a channel with
/// auto-reactions: none for a message of a bot; else each configured
/// emoji that reads as a reaction, in order.
pub fn autoreactions(author_is_bot: bool, emojis: &Vec<String>) -> (r: Vec<String>)
    ensures
        author_is_bot ==> r@.len() == 0,
        !author_is_bot ==> string_views(r@) == kept_reactions(
            emojis@,
            Seq::new(emojis@.len(), |i: int| reaction_parses(emojis@[i]@)),
        ),
{
    if author_is_bot {
        return Vec::new();
    }
    let mut parses: Vec<bool> = Vec::new();
    let mut i: usize = 0;
    while i < emojis.len()
        invariant
            i <= emojis.len(),
            parses@.len() == i,
            forall|k: int| 0 <= k < i ==> parses@[k] == reaction_parses(#[trigger] emojis@[k]@),
        decreases emojis.len() - i,
    {
        parses.push(parses_as_reaction(emojis[i].as_str()));
        i += 1;
    }
    assert(parses@ =~= Seq::new(emojis@.len(), |k: int| reaction_parses(emojis@[k]@)));
    select_reactions(emojis, &parses)
}

// ---------------------------------------------------------------------------
// Buttons and channels
// ---------------------------------------------------------------------------

/// What a `button` command asks for.
#[derive(Debug, PartialEq, Eq)]
pub enum ButtonRequest {
    /// Post a button that opens the link.
    Add(String),
    /// Explain how a button is removed.
    Del,
    /// Fewer than two arguments, or another action: nothing is done.
    Ignore,
}

/// How a `button` command is read: an action (`add` or `del`, in any
/// case) and a link.
pub open spec fn button_request_spec(args: Seq<&str>, r: ButtonRequest) -> bool {
    if args.len() < 2 {
        r is Ignore
    } else if crate::text::str_lowercase(args[0]@) == "add"@ {
        r matches ButtonRequest::Add(link) && link@ == args[1]@
    } else if crate::text::str_lowercase(args[0]@) == "del"@ {
        r is Del
    } else {
        r is Ignore
    }
}

/// Reads the arguments of a `button` command.
pub fn button_request(args: &[&str]) -> (r: ButtonRequest)
    ensures
        button_request_spec(args@, r),
{
    if args.len() < 2 {
        return ButtonRequest::Ignore;
    }
    let v = chars_of(args[0]);
    let action = crate::text::lowercase_chars(&v);
    if chars_are(&action, "add") {
        ButtonRequest::Add(String::from_str(args[1]))
    } else if chars_are(&action, "del") {
        ButtonRequest::Del
    } else {
        ButtonRequest::Ignore
    }
}

/// Whether a channel can be renewed (deleted and made again): text and
/// announcement channels only.
pub fn renewable(kind: crate::backup::ChannelKind) -> (r: bool)
    ensures
        r == (kind == crate::backup::ChannelKind::Text || kind == crate::backup::ChannelKind::News),
{
    match kind {
        crate::backup::ChannelKind::Text => true,
        crate::backup::ChannelKind::News => true,
        _ => false,
    }
}

/// The name of an automatic backup: `auto_`, its kind, `_`, and the time
/// it was made, written `YYYYmmdd_HHMMSS`.
pub fn autobackup_name(kind: &str, stamp: &str) -> (r: String)
    ensures
        r@ == "auto_"@ + kind@ + "_"@ + stamp@,
{
    let mut v: Vec<char> = Vec::new();
    extend_str(&mut v, "auto_");
    extend_str(&mut v, kind);
    extend_str(&mut v, "_");
    extend_str(&mut v, stamp);
    string_of(&v)
}


/// `end` with no argument shows the menu; `end giveaway <id>` (the first
/// word in any ASCII case) ends the giveaway whose message id is the
/// number, a word that is no number is refused, and a missing id shows
/// how to use it; any other first word is ignored.
pub proof fn lemma_end_request_words(args: Seq<&str>)
    ensures
        args.len() == 0 ==> end_request_spec(args) == EndRequest::Menu,
        args.len() >= 1 && !crate::text::eq_ignore_ascii_case_seq(args[0]@, "giveaway"@) ==> end_request_spec(
            args,
        ) == EndRequest::Ignore,
        args.len() == 1 && crate::text::eq_ignore_ascii_case_seq(args[0]@, "giveaway"@) ==> end_request_spec(
            args,
        ) == EndRequest::Usage,
        args.len() >= 2 && crate::text::eq_ignore_ascii_case_seq(args[0]@, "giveaway"@) ==> end_request_spec(
            args,
        ) == match parse_u64_spec(args[1]@) {
            Some(id) => EndRequest::End(id),
            None => EndRequest::InvalidId,
        },
{
}

/// `autoreact list` lists; `autoreact add|del <#channel> <emoji>` adds or
/// removes the emoji of the channel named by the mention (or id); with no
/// argument the menu shows. The action is read in any case.
pub proof fn lemma_autoreact_request_words(args: Seq<&str>, r: AutoreactRequest)
    requires
        autoreact_request_spec(args, r),
    ensures
        args.len() == 0 ==> r is Menu,
        args.len() >= 1 && crate::text::str_lowercase(args[0]@) == "list"@ ==> r is List,
        args.len() >= 3 && crate::text::str_lowercase(args[0]@) == "add"@ ==> (match parse_u64_spec(
            channel_mention_body(args[1]@),
        ) {
            Some(c) => (r matches AutoreactRequest::Add(rc, e) && rc == c && e@ == args[2]@),
            None => r is Ignore,
        }),
        args.len() >= 3 && crate::text::str_lowercase(args[0]@) == "del"@ ==> (match parse_u64_spec(
            channel_mention_body(args[1]@),
        ) {
            Some(c) => (r matches AutoreactRequest::Del(rc, e) && rc == c && e@ == args[2]@),
            None => r is Ignore,
        }),
{
    reveal_strlit("list");
    reveal_strlit("add");
    reveal_strlit("del");
    assert("list"@.len() != "add"@.len());
    assert("list"@.len() != "del"@.len());
    assert("add"@[0] != "del"@[0]);
}

/// `button add <link>` adds a button to that link and `button del`
/// removes it (the action in any case); anything shorter is ignored.
pub proof fn lemma_button_request_words(args: Seq<&str>, r: ButtonRequest)
    requires
        button_request_spec(args, r),
    ensures
        args.len() < 2 ==> r is Ignore,
        args.len() >= 2 && crate::text::str_lowercase(args[0]@) == "add"@ ==> (
        r matches ButtonRequest::Add(link) && link@ == args[1]@),
        args.len() >= 2 && crate::text::str_lowercase(args[0]@) == "del"@ ==> r is Del,
{
    reveal_strlit("add");
    reveal_strlit("del");
    assert("add"@[0] != "del"@[0]);
}

/// `sync all` (any ASCII case) syncs every channel; a channel mention or id
/// syncs that channel; anything else syncs nothing.
pub proof fn lemma_sync_scope_words(scope: Seq<char>)
    ensures
        crate::text::eq_ignore_ascii_case_seq(scope, "all"@) ==> sync_scope_spec(scope) == SyncScope::All,
        !crate::text::eq_ignore_ascii_case_seq(scope, "all"@) ==> sync_scope_spec(scope) == match parse_u64_spec(
            channel_mention_body(scope),
        ) {
            Some(c) => SyncScope::Channel(c),
            None => SyncScope::Nothing,
        },
{
}


/// The members counted in a voice channel are exactly those whose voice
/// state is in that channel.
pub proof fn lemma_members_in_channel(states: Seq<(u64, Option<u64>)>, channel: u64)
    ensures
        forall|m: u64|
            #[trigger] members_in_channel_spec(states, channel).contains(m) <==> exists|i: int|
                0 <= i < states.len() && #[trigger] states[i] == (m, Some(channel)),
    decreases states.len(),
{
    if states.len() > 0 {
        let p = states.drop_last();
        let l = states.last();
        let n = states.len() - 1;
        lemma_members_in_channel(p, channel);
        let prev = members_in_channel_spec(p, channel);
        let cur = members_in_channel_spec(states, channel);
        assert forall|m: u64| #[trigger] cur.contains(m) <==> exists|i: int|
            0 <= i < states.len() && #[trigger] states[i] == (m, Some(channel)) by {
            if cur.contains(m) {
                let k = choose|k: int| 0 <= k < cur.len() && cur[k] == m;
                if l.1 == Some(channel) && k == prev.len() {
                    assert(states[n] == (m, Some(channel)));
                } else {
                    assert(prev[k] == m);
                    assert(prev.contains(m));
                    let j = choose|j: int| 0 <= j < p.len() && #[trigger] p[j] == (m, Some(channel));
                    assert(states[j] == p[j]);
                }
            }
            if exists|i: int| 0 <= i < states.len() && #[trigger] states[i] == (m, Some(channel)) {
                let i = choose|i: int| 0 <= i < states.len() && #[trigger] states[i] == (m, Some(channel));
                if i == n {
                    assert(cur[prev.len() as int] == m);
                } else {
                    assert(p[i] == states[i]);
                    assert(prev.contains(m));
                    let k = choose|k: int| 0 <= k < prev.len() && prev[k] == m;
                    assert(cur[k] == m);
                }
            }
        }
    }
}

/// The members counted in voice are exactly those whose voice state is in
/// some channel.
pub proof fn lemma_members_in_voice(states: Seq<(u64, Option<u64>)>)
    ensures
        forall|m: u64|
            #[trigger] members_in_voice_spec(states).contains(m) <==> exists|i: int|
                0 <= i < states.len() && (#[trigger] states[i]).0 == m && states[i].1 is Some,
    decreases states.len(),
{
    if states.len() > 0 {
        let p = states.drop_last();
        let l = states.last();
        let n = states.len() - 1;
        lemma_members_in_voice(p);
        let prev = members_in_voice_spec(p);
        let cur = members_in_voice_spec(states);
        assert forall|m: u64| #[trigger] cur.contains(m) <==> exists|i: int|
            0 <= i < states.len() && (#[trigger] states[i]).0 == m && states[i].1 is Some by {
            if cur.contains(m) {
                let k = choose|k: int| 0 <= k < cur.len() && cur[k] == m;
                if l.1 is Some && k == prev.len() {
                    assert(states[n].0 == m && states[n].1 is Some);
                } else {
                    assert(prev[k] == m);
                    assert(prev.contains(m));
                    let j = choose|j: int| 0 <= j < p.len() && (#[trigger] p[j]).0 == m && p[j].1 is Some;
                    assert(states[j] == p[j]);
                }
            }
            if exists|i: int| 0 <= i < states.len() && (#[trigger] states[i]).0 == m && states[i].1 is Some {
                let i = choose|i: int| 0 <= i < states.len() && (#[trigger] states[i]).0 == m && states[i].1 is Some;
                if i == n {
                    assert(cur[prev.len() as int] == m);
                } else {
                    assert(p[i] == states[i]);
                    assert(prev.contains(m));
                    let k = choose|k: int| 0 <= k < prev.len() && prev[k] == m;
                    assert(cur[k] == m);
                }
            }
        }
    }
}

/// The channels of a category are exactly those whose parent is it.
pub proof fn lemma_children_of(chs: Seq<GuildChannelInfo>, c: u64)
    ensures
        forall|id: u64|
            #[trigger] children_of(chs, c).contains(id) <==> exists|i: int|
                0 <= i < chs.len() && (#[trigger] chs[i]).id == id && chs[i].parent == Some(c),
    decreases chs.len(),
{
    if chs.len() > 0 {
        let p = chs.drop_last();
        let l = chs.last();
        let n = chs.len() - 1;
        lemma_children_of(p, c);
        let prev = children_of(p, c);
        let cur = children_of(chs, c);
        assert forall|id: u64| #[trigger] cur.contains(id) <==> exists|i: int|
            0 <= i < chs.len() && (#[trigger] chs[i]).id == id && chs[i].parent == Some(c) by {
            if cur.contains(id) {
                let k = choose|k: int| 0 <= k < cur.len() && cur[k] == id;
                if l.parent == Some(c) && k == prev.len() {
                    assert(chs[n].id == id && chs[n].parent == Some(c));
                } else {
                    assert(prev[k] == id);
                    assert(prev.contains(id));
                    let j = choose|j: int| 0 <= j < p.len() && (#[trigger] p[j]).id == id && p[j].parent == Some(c);
                    assert(chs[j] == p[j]);
                }
            }
            if exists|i: int| 0 <= i < chs.len() && (#[trigger] chs[i]).id == id && chs[i].parent == Some(c) {
                let i = choose|i: int| 0 <= i < chs.len() && (#[trigger] chs[i]).id == id && chs[i].parent == Some(c);
                if i == n {
                    assert(cur[prev.len() as int] == id);
                } else {
                    assert(p[i] == chs[i]);
                    assert(prev.contains(id));
                    let k = choose|k: int| 0 <= k < prev.len() && prev[k] == id;
                    assert(cur[k] == id);
                }
            }
        }
    }
}

/// The reactions kept are exactly the emojis whose flag is set.
pub proof fn lemma_kept_reactions(emojis: Seq<String>, parses: Seq<bool>)
    requires
        parses.len() == emojis.len(),
    ensures
        forall|e: Seq<char>|
            #[trigger] kept_reactions(emojis, parses).contains(e) <==> exists|i: int|
                0 <= i < emojis.len() && parses[i] && (#[trigger] emojis[i])@ == e,
    decreases emojis.len(),
{
    if emojis.len() > 0 {
        let p = emojis.drop_last();
        let n = emojis.len() - 1;
        let q = parses.drop_last();
        lemma_kept_reactions(p, q);
        assert(kept_reactions(p, q) == kept_reactions(p, parses)) by {
            lemma_kept_reactions_prefix(p, q, parses);
        }
        let prev = kept_reactions(p, parses);
        let cur = kept_reactions(emojis, parses);
        assert forall|e: Seq<char>| #[trigger] cur.contains(e) <==> exists|i: int|
            0 <= i < emojis.len() && parses[i] && (#[trigger] emojis[i])@ == e by {
            if cur.contains(e) {
                let k = choose|k: int| 0 <= k < cur.len() && cur[k] == e;
                if parses[n] && k == prev.len() {
                    assert(parses[n] && emojis[n]@ == e);
                } else {
                    assert(prev[k] == e);
                    assert(prev.contains(e));
                    let j = choose|j: int| 0 <= j < p.len() && q[j] && (#[trigger] p[j])@ == e;
                    assert(emojis[j] == p[j] && parses[j] == q[j]);
                }
            }
            if exists|i: int| 0 <= i < emojis.len() && parses[i] && (#[trigger] emojis[i])@ == e {
                let i = choose|i: int| 0 <= i < emojis.len() && parses[i] && (#[trigger] emojis[i])@ == e;
                if i == n {
                    assert(cur[prev.len() as int] == e);
                } else {
                    assert(p[i] == emojis[i] && q[i] == parses[i]);
                    assert(prev.contains(e));
                    let k = choose|k: int| 0 <= k < prev.len() && prev[k] == e;
                    assert(cur[k] == e);
                }
            }
        }
    }
}

proof fn lemma_kept_reactions_prefix(emojis: Seq<String>, a: Seq<bool>, b: Seq<bool>)
    requires
        emojis.len() <= a.len(),
        emojis.len() <= b.len(),
        forall|i: int| 0 <= i < emojis.len() ==> a[i] == b[i],
    ensures
        kept_reactions(emojis, a) == kept_reactions(emojis, b),
    decreases emojis.len(),
{
    if emojis.len() > 0 {
        lemma_kept_reactions_prefix(emojis.drop_last(), a, b);
    }
}

/// The options of `choose` are exactly the pieces that are not only
/// spaces, each trimmed.
pub proof fn lemma_option_pieces(parts: Seq<Seq<char>>)
    ensures
        forall|o: Seq<char>|
            #[trigger] option_pieces(parts).contains(o) <==> exists|i: int|
                0 <= i < parts.len() && trim_seq(#[trigger] parts[i]) == o && o.len() > 0,
    decreases parts.len(),
{
    if parts.len() > 0 {
        let p = parts.drop_last();
        let n = parts.len() - 1;
        lemma_option_pieces(p);
        let prev = option_pieces(p);
        let cur = option_pieces(parts);
        let t = trim_seq(parts.last());
        assert forall|o: Seq<char>| #[trigger] cur.contains(o) <==> exists|i: int|
            0 <= i < parts.len() && trim_seq(#[trigger] parts[i]) == o && o.len() > 0 by {
            if cur.contains(o) {
                let k = choose|k: int| 0 <= k < cur.len() && cur[k] == o;
                if t.len() > 0 && k == prev.len() {
                    assert(trim_seq(parts[n]) == o && o.len() > 0);
                } else {
                    assert(prev[k] == o);
                    assert(prev.contains(o));
                    let j = choose|j: int| 0 <= j < p.len() && trim_seq(#[trigger] p[j]) == o && o.len() > 0;
                    assert(parts[j] == p[j]);
                }
            }
            if exists|i: int| 0 <= i < parts.len() && trim_seq(#[trigger] parts[i]) == o && o.len() > 0 {
                let i = choose|i: int| 0 <= i < parts.len() && trim_seq(#[trigger] parts[i]) == o && o.len() > 0;
                if i == n {
                    assert(cur[prev.len() as int] == o);
                } else {
                    assert(p[i] == parts[i]);
                    assert(prev.contains(o));
                    let k = choose|k: int| 0 <= k < prev.len() && prev[k] == o;
                    assert(cur[k] == o);
                }
            }
        }
    }
}


/// A channel named as `<#id>`, or by its bare id, is read back as `id`.
pub proof fn lemma_channel_mention_round_trip(id: u64)
    ensures
        parse_u64_spec(channel_mention_body(seq!['<', '#'] + decimal(id as nat) + seq!['>']))
            == Some(id),
        parse_u64_spec(channel_mention_body(decimal(id as nat))) == Some(id),
{
    let d = decimal(id as nat);
    lemma_decimal_all_digits(id as nat);
    lemma_parse_u64_decimal(id);
    assert(is_digit(d[0]));
    assert(is_digit(d.last()));
    let m = seq!['<', '#'] + d + seq!['>'];
    assert(!is_ws(m[0]));
    assert(m.last() == '>');
    assert(!is_ws(m.last()));
    assert(trim_start_seq(m) == m);
    assert(trim_end_seq(m) == m);
    let s1 = m.drop_first();
    assert(s1 =~= seq!['#'] + d + seq!['>']);
    assert(strip_start(m, '<') == strip_start(s1, '<'));
    assert(strip_start(s1, '<') == s1);
    let s2 = s1.drop_last();
    assert(s2 =~= seq!['#'] + d);
    assert(strip_end(s1, '>') == strip_end(s2, '>'));
    assert(s2.last() == d.last());
    assert(strip_end(s2, '>') == s2);
    let s3 = s2.drop_first();
    assert(s3 =~= d);
    assert(strip_start(s2, '#') == strip_start(s3, '#'));
    assert(strip_start(s3, '#') == s3);
    assert(!is_ws(d[0]));
    assert(!is_ws(d.last()));
    assert(trim_start_seq(d) == d);
    assert(trim_end_seq(d) == d);
    assert(strip_start(d, '<') == d);
    assert(strip_end(d, '>') == d);
    assert(strip_start(d, '#') == d);
}

} // verus!
