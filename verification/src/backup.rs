//! Server backups: what a backup holds, how channel kinds and permission
//! overwrites are written into it and read back, how a restore maps the
//! old roles and categories onto the server, and how the backup commands
//! read their arguments.
use std::collections::HashMap;

use vstd::prelude::*;

use crate::automod::opt_text;
use crate::text::{
    chars_are, chars_of, decimal, extend_str, join_chars, join_seq, lowercase_chars,
    parse_i32_chars, parse_i32_spec, push_decimal, push_signed_decimal, signed_decimal,
    str_lowercase, string_of, trim_chars, trim_seq, views_of,
};

verus! {

broadcast use vstd::std_specs::hash::group_hash_axioms;

// ---------------------------------------------------------------------------
// What a backup holds
// ---------------------------------------------------------------------------

/// A role as saved in a backup.
pub struct BackupRole {
    pub id: u64,
    pub name: String,
    pub color: u32,
    pub hoist: bool,
    pub mentionable: bool,
    pub permissions: u64,
    pub position: i64,
}

/// A permission overwrite as saved in a backup: `role`, `member` or
/// `other`, the target's id, and the allowed and denied permission bits.
pub struct BackupOverwrite {
    pub kind: String,
    pub target_id: u64,
    pub allow: u64,
    pub deny: u64,
}

/// A channel as saved in a backup.
pub struct BackupChannel {
    pub id: u64,
    pub name: String,
    pub kind: String,
    pub position: i64,
    pub parent_id: Option<u64>,
    pub topic: Option<String>,
    pub nsfw: bool,
    pub bitrate: Option<u32>,
    pub user_limit: Option<u32>,
    pub slowmode: Option<u16>,
    pub overwrites: Vec<BackupOverwrite>,
}

/// A custom emoji as saved in a backup.
pub struct BackupEmoji {
    pub id: u64,
    pub name: String,
    pub animated: bool,
    pub image_url: String,
}

/// The roles of one member as saved in a backup.
pub struct BackupMemberRoles {
    pub user_id: u64,
    pub role_ids: Vec<u64>,
}

/// A backup of a whole server.
pub struct ServerBackupPayload {
    pub guild_id: u64,
    pub guild_name: String,
    pub roles: Vec<BackupRole>,
    pub channels: Vec<BackupChannel>,
    pub emojis: Vec<BackupEmoji>,
    pub members: Vec<BackupMemberRoles>,
}

/// A backup of the emojis of a server.
pub struct EmojiBackupPayload {
    pub guild_id: u64,
    pub guild_name: String,
    pub emojis: Vec<BackupEmoji>,
}

// ---------------------------------------------------------------------------
// Backup kinds
// ---------------------------------------------------------------------------

/// The backup kind a (lowercased) word names.
pub open spec fn backup_kind_of(lower: Seq<char>) -> Option<Seq<char>> {
    if lower == "serveur"@ || lower == "server"@ || lower == "srv"@ {
        Some("server"@)
    } else if lower == "emoji"@ || lower == "emojis"@ {
        Some("emoji"@)
    } else {
        None
    }
}

/// Reads a backup kind, in any case: `serveur`, `server`, `srv`, or
/// `emoji`, `emojis`.
pub fn parse_backup_kind(input: &str) -> (r: Option<&'static str>)
    ensures
        opt_text(r) == backup_kind_of(str_lowercase(input@)),
{
    let v = chars_of(input);
    let lower = lowercase_chars(&v);
    kind_of_lowercase(&lower)
}

/// The backup kind of a word already lowercased.
fn kind_of_lowercase(lower: &Vec<char>) -> (r: Option<&'static str>)
    ensures
        opt_text(r) == backup_kind_of(lower@),
{
    if chars_are(lower, "serveur") || chars_are(lower, "server") || chars_are(lower, "srv") {
        Some("server")
    } else if chars_are(lower, "emoji") || chars_are(lower, "emojis") {
        Some("emoji")
    } else {
        None
    }
}

// ---------------------------------------------------------------------------
// Channel kinds
// ---------------------------------------------------------------------------

/// The kinds of channel a backup tells apart.
#[derive(Clone, Copy, Debug, PartialEq, Eq, Structural)]
pub enum ChannelKind {
    Text,
    Voice,
    Category,
    News,
    Stage,
    Forum,
    /// Any other kind (threads, directories, ...).
    Other,
}

/// The name under which a channel kind is saved.
pub open spec fn kind_name(kind: ChannelKind) -> Seq<char> {
    match kind {
        ChannelKind::Text => "text"@,
        ChannelKind::Voice => "voice"@,
        ChannelKind::Category => "category"@,
        ChannelKind::News => "news"@,
        ChannelKind::Stage => "stage"@,
        ChannelKind::Forum => "forum"@,
        ChannelKind::Other => "other"@,
    }
}

/// The kind a saved name restores as; anything unknown restores as text.
pub open spec fn kind_of_name(name: Seq<char>) -> ChannelKind {
    if name == "voice"@ {
        ChannelKind::Voice
    } else if name == "category"@ {
        ChannelKind::Category
    } else if name == "news"@ {
        ChannelKind::News
    } else if name == "stage"@ {
        ChannelKind::Stage
    } else if name == "forum"@ {
        ChannelKind::Forum
    } else {
        ChannelKind::Text
    }
}

/// The name under which a channel kind is saved.
pub fn channel_kind_to_str(kind: ChannelKind) -> (r: String)
    ensures
        r@ == kind_name(kind),
{
    let s = match kind {
        ChannelKind::Text => "text",
        ChannelKind::Voice => "voice",
        ChannelKind::Category => "category",
        ChannelKind::News => "news",
        ChannelKind::Stage => "stage",
        ChannelKind::Forum => "forum",
        ChannelKind::Other => "other",
    };
    String::from_str(s)
}

/// The kind a saved channel is restored as.
pub fn channel_kind_from_str(kind: &str) -> (r: ChannelKind)
    ensures
        r == kind_of_name(kind@),
{
    let v = chars_of(kind);
    if chars_are(&v, "voice") {
        ChannelKind::Voice
    } else if chars_are(&v, "category") {
        ChannelKind::Category
    } else if chars_are(&v, "news") {
        ChannelKind::News
    } else if chars_are(&v, "stage") {
        ChannelKind::Stage
    } else if chars_are(&v, "forum") {
        ChannelKind::Forum
    } else {
        ChannelKind::Text
    }
}

/// A saved channel is restored with the kind it had, except a kind the
/// backup does not tell apart, which comes back as a text channel.
pub proof fn lemma_kind_round_trip(kind: ChannelKind)
    ensures
        kind_of_name(kind_name(kind)) == (if kind == ChannelKind::Other {
            ChannelKind::Text
        } else {
            kind
        }),
{
    reveal_strlit("text");
    reveal_strlit("voice");
    reveal_strlit("category");
    reveal_strlit("news");
    reveal_strlit("stage");
    reveal_strlit("forum");
    reveal_strlit("other");
    assert("text"@[0] != "voice"@[0]);
    assert("text"@[0] != "category"@[0]);
    assert("text"@[0] != "news"@[0]);
    assert("text"@.len() != "stage"@.len());
    assert("text"@[0] != "forum"@[0]);
    assert("other"@[0] != "voice"@[0]);
    assert("other"@[0] != "category"@[0]);
    assert("other"@[0] != "news"@[0]);
    assert("other"@[0] != "stage"@[0]);
    assert("other"@[0] != "forum"@[0]);
    assert("voice"@[0] != "category"@[0]);
    assert("voice"@[0] != "news"@[0]);
    assert("voice"@[0] != "stage"@[0]);
    assert("voice"@[0] != "forum"@[0]);
    assert("category"@[0] != "news"@[0]);
    assert("category"@[0] != "stage"@[0]);
    assert("category"@[0] != "forum"@[0]);
    assert("news"@[0] != "stage"@[0]);
    assert("news"@[0] != "forum"@[0]);
    assert("stage"@[0] != "forum"@[0]);
}

// ---------------------------------------------------------------------------
// Permission overwrites
// ---------------------------------------------------------------------------

/// Whom a permission overwrite applies to.
#[derive(Clone, Copy, Debug, PartialEq, Eq, Structural)]
pub enum OverwriteTarget {
    Role(u64),
    Member(u64),
    /// A target of a kind the bot does not know.
    Other,
}

/// A permission overwrite of a channel: allowed and denied permission
/// bits, and the target.
#[derive(Clone, Copy, Debug, PartialEq, Eq, Structural)]
pub struct Overwrite {
    pub allow: u64,
    pub deny: u64,
    pub target: OverwriteTarget,
}

/// The bits of every permission the chat library knows: bits 0 to 46 and
/// 48 to 50.
pub open spec fn known_permissions() -> u64 {
    0x0007_7fff_ffff_ffffu64
}

/// What the permission set keeps of `bits`: the bits of known permissions.
pub open spec fn permissions_truncate(bits: u64) -> u64 {
    bits & known_permissions()
}

/// `Permissions::from_bits_truncate(bits).bits()`: the bits, with every
/// bit that names no known permission cleared (`bits & all`, where `all`
/// joins the flags the chat library generates).
#[verifier::external_body]
fn truncate_permission_bits(bits: u64) -> (r: u64)
    ensures
        r == permissions_truncate(bits),
{
    serenity::all::Permissions::from_bits_truncate(bits).bits()
}

/// The saved form of an overwrite.
pub open spec fn saved_overwrite(ow: Overwrite) -> (Seq<char>, u64, u64, u64) {
    match ow.target {
        OverwriteTarget::Role(id) => ("role"@, id, ow.allow, ow.deny),
        OverwriteTarget::Member(id) => ("member"@, id, ow.allow, ow.deny),
        OverwriteTarget::Other => ("other"@, 0, ow.allow, ow.deny),
    }
}

pub open spec fn backup_overwrite_view(b: BackupOverwrite) -> (Seq<char>, u64, u64, u64) {
    (b.kind@, b.target_id, b.allow, b.deny)
}

/// Writes the overwrites of a channel into a backup, in order.
pub fn serialize_overwrites(source: &Vec<Overwrite>) -> (r: Vec<BackupOverwrite>)
    ensures
        r@.len() == source@.len(),
        forall|i: int|
            0 <= i < source@.len() ==> backup_overwrite_view(#[trigger] r@[i]) == saved_overwrite(
                source@[i],
            ),
{
    let mut out: Vec<BackupOverwrite> = Vec::new();
    let mut i: usize = 0;
    while i < source.len()
        invariant
            i <= source.len(),
            out@.len() == i,
            forall|j: int|
                0 <= j < i ==> backup_overwrite_view(#[trigger] out@[j]) == saved_overwrite(
                    source@[j],
                ),
        decreases source.len() - i,
    {
        let ow = source[i];
        let (kind, target_id) = match ow.target {
            OverwriteTarget::Role(id) => (String::from_str("role"), id),
            OverwriteTarget::Member(id) => (String::from_str("member"), id),
            OverwriteTarget::Other => (String::from_str("other"), 0),
        };
        out.push(BackupOverwrite { kind, target_id, allow: ow.allow, deny: ow.deny });
        i += 1;
    }
    out
}

/// The overwrite a saved one restores as: a role overwrite follows the
/// map from old to new role ids and is dropped when its role is not in
/// it; a member overwrite keeps its member; any other is dropped. The
/// permission bits are cut down to the known permissions.
pub open spec fn restored_overwrite(b: BackupOverwrite, role_map: Map<u64, u64>) -> Option<
    Overwrite,
> {
    if b.kind@ == "role"@ {
        if role_map.contains_key(b.target_id) {
            Some(
                Overwrite {
                    allow: permissions_truncate(b.allow),
                    deny: permissions_truncate(b.deny),
                    target: OverwriteTarget::Role(role_map[b.target_id]),
                },
            )
        } else {
            None
        }
    } else if b.kind@ == "member"@ {
        Some(
            Overwrite {
                allow: permissions_truncate(b.allow),
                deny: permissions_truncate(b.deny),
                target: OverwriteTarget::Member(b.target_id),
            },
        )
    } else {
        None
    }
}

/// The restored overwrites of the saved ones, in order.
pub open spec fn restored_overwrites(s: Seq<BackupOverwrite>, role_map: Map<u64, u64>) -> Seq<
    Overwrite,
>
    decreases s.len(),
{
    if s.len() == 0 {
        Seq::empty()
    } else {
        let prev = restored_overwrites(s.drop_last(), role_map);
        match restored_overwrite(s.last(), role_map) {
            Some(o) => prev.push(o),
            None => prev,
        }
    }
}

/// A member overwrite names a member: its id is not zero.
pub open spec fn member_targets_valid(s: Seq<BackupOverwrite>) -> bool {
    forall|i: int|
        0 <= i < s.len() ==> (#[trigger] s[i]).kind@ == "member"@ ==> s[i].target_id != 0
}

/// An overwrite that comes back as it was saved: its role maps to itself
/// or it names a member (not zero), and it sets only known permission bits.
pub open spec fn restorable_overwrite(ow: Overwrite, role_map: Map<u64, u64>) -> bool {
    &&& permissions_truncate(ow.allow) == ow.allow
    &&& permissions_truncate(ow.deny) == ow.deny
    &&& match ow.target {
        OverwriteTarget::Role(id) => role_map.contains_key(id) && role_map[id] == id,
        OverwriteTarget::Member(id) => id != 0,
        OverwriteTarget::Other => false,
    }
}

/// Restoring the overwrites a backup saved gives back those overwrites, in
/// order, when each role maps to itself, each member id is not zero and only
/// known permission bits are set; such a backup is also fit to be read back.
pub proof fn lemma_overwrites_round_trip(
    ows: Seq<Overwrite>,
    saved: Seq<BackupOverwrite>,
    role_map: Map<u64, u64>,
)
    requires
        saved.len() == ows.len(),
        forall|i: int|
            0 <= i < ows.len() ==> backup_overwrite_view(#[trigger] saved[i]) == saved_overwrite(
                ows[i],
            ),
        forall|i: int| 0 <= i < ows.len() ==> restorable_overwrite(#[trigger] ows[i], role_map),
    ensures
        member_targets_valid(saved),
        restored_overwrites(saved, role_map) == ows,
    decreases ows.len(),
{
    reveal_strlit("role");
    reveal_strlit("member");
    assert("role"@[0] != "member"@[0]);
    assert forall|i: int|
        0 <= i < saved.len() && (#[trigger] saved[i]).kind@ == "member"@ implies saved[i].target_id
        != 0 by {
        assert(backup_overwrite_view(saved[i]) == saved_overwrite(ows[i]));
        assert(restorable_overwrite(ows[i], role_map));
    }
    if ows.len() == 0 {
        assert(ows =~= Seq::<Overwrite>::empty());
    } else {
        let n = ows.len() - 1;
        assert forall|i: int| 0 <= i < n implies backup_overwrite_view(
            #[trigger] saved.drop_last()[i],
        ) == saved_overwrite(ows.drop_last()[i]) by {
            assert(backup_overwrite_view(saved[i]) == saved_overwrite(ows[i]));
        }
        assert forall|i: int| 0 <= i < n implies restorable_overwrite(
            #[trigger] ows.drop_last()[i],
            role_map,
        ) by {
            assert(restorable_overwrite(ows[i], role_map));
        }
        lemma_overwrites_round_trip(ows.drop_last(), saved.drop_last(), role_map);
        assert(backup_overwrite_view(saved[n]) == saved_overwrite(ows[n]));
        assert(restorable_overwrite(ows[n], role_map));
        assert(restored_overwrite(saved.last(), role_map) == Some(ows.last()));
        assert(ows.drop_last().push(ows.last()) =~= ows);
    }
}

/// Reads the overwrites of a channel back from a backup. A member id of
/// zero names no member (the chat library refuses it), so none may be
/// saved.
pub fn deserialize_overwrites(source: &Vec<BackupOverwrite>, role_map: &HashMap<u64, u64>) -> (r:
    Vec<Overwrite>)
    requires
        member_targets_valid(source@),
    ensures
        r@ == restored_overwrites(source@, role_map@),
{
    let mut out: Vec<Overwrite> = Vec::new();
    let mut i: usize = 0;
    assert(source@.take(0) =~= Seq::<BackupOverwrite>::empty());
    while i < source.len()
        invariant
            i <= source.len(),
            out@ == restored_overwrites(source@.take(i as int), role_map@),
        decreases source.len() - i,
    {
        let ow = &source[i];
        assert(source@.take(i + 1).drop_last() =~= source@.take(i as int));
        assert(source@.take(i + 1).last() == *ow);
        let kind = chars_of(ow.kind.as_str());
        if chars_are(&kind, "role") {
            match role_map.get(&ow.target_id) {
                Some(mapped) => {
                    let allow = truncate_permission_bits(ow.allow);
                    let deny = truncate_permission_bits(ow.deny);
                    out.push(Overwrite { allow, deny, target: OverwriteTarget::Role(*mapped) });
                },
                None => {},
            }
        } else if chars_are(&kind, "member") {
            let allow = truncate_permission_bits(ow.allow);
            let deny = truncate_permission_bits(ow.deny);
            out.push(Overwrite { allow, deny, target: OverwriteTarget::Member(ow.target_id) });
        }
        i += 1;
    }
    assert(source@.take(source.len() as int) =~= source@);
    out
}

// ---------------------------------------------------------------------------
// Restoring roles and members
// ---------------------------------------------------------------------------

/// A role that exists on the server, by its id and name.
pub struct ExistingRole {
    pub id: u64,
    pub name: String,
}

/// What a restore does with one saved role.
#[derive(Clone, Copy, Debug, PartialEq, Eq, Structural)]
pub enum RolePlan {
    /// The `@everyone` role is never restored.
    Skip,
    /// A role of the same name exists: the saved role maps onto it.
    Reuse(u64),
    /// No role of that name exists: the role is created.
    Create,
}

/// What a restore does with a saved role named `name`: the first existing
/// role of that name is reused.
pub open spec fn role_plan_spec(name: Seq<char>, existing: Seq<ExistingRole>) -> RolePlan {
    if name == "@everyone"@ {
        RolePlan::Skip
    } else if exists|i: int| 0 <= i < existing.len() && (#[trigger] existing[i]).name@ == name {
        let i = choose|i: int|
            0 <= i < existing.len() && existing[i].name@ == name && forall|j: int|
                0 <= j < i ==> (#[trigger] existing[j]).name@ != name;
        RolePlan::Reuse(existing[i].id)
    } else {
        RolePlan::Create
    }
}

/// Decides what a restore does with one saved role.
pub fn plan_role(role: &BackupRole, existing: &Vec<ExistingRole>) -> (r: RolePlan)
    ensures
        r == role_plan_spec(role.name@, existing@),
{
    let name = chars_of(role.name.as_str());
    if chars_are(&name, "@everyone") {
        return RolePlan::Skip;
    }
    let mut i: usize = 0;
    while i < existing.len()
        invariant
            i <= existing.len(),
            name@ == role.name@,
            role.name@ != "@everyone"@,
            forall|j: int| 0 <= j < i ==> (#[trigger] existing@[j]).name@ != role.name@,
        decreases existing.len() - i,
    {
        let other = chars_of(existing[i].name.as_str());
        if crate::text::chars_eq(&other, &name) {
            proof {
                let n = role.name@;
                let c = choose|c: int|
                    0 <= c < existing@.len() && existing@[c].name@ == n && forall|j: int|
                        0 <= j < c ==> (#[trigger] existing@[j]).name@ != n;
                assert(0 <= i < existing@.len() && existing@[i as int].name@ == n);
                if c < i {
                    assert(existing@[c].name@ != n);
                } else if c > i {
                    assert(existing@[i as int].name@ != n);
                }
            }
            return RolePlan::Reuse(existing[i].id);
        }
        i += 1;
    }
    RolePlan::Create
}

/// The old-to-new role map a restore starts from: every existing role
/// maps to itself.
pub fn initial_role_map(existing: &Vec<ExistingRole>) -> (m: HashMap<u64, u64>)
    ensures
        forall|id: u64|
            m@.contains_key(id) <==> exists|i: int|
                0 <= i < existing@.len() && (#[trigger] existing@[i]).id == id,
        forall|id: u64| #[trigger] m@.contains_key(id) ==> m@[id] == id,
{
    let mut m: HashMap<u64, u64> = HashMap::new();
    let mut i: usize = 0;
    while i < existing.len()
        invariant
            i <= existing.len(),
            forall|id: u64|
                m@.contains_key(id) <==> exists|k: int|
                    0 <= k < i && (#[trigger] existing@[k]).id == id,
            forall|id: u64| #[trigger] m@.contains_key(id) ==> m@[id] == id,
        decreases existing.len() - i,
    {
        let id = existing[i].id;
        m.insert(id, id);
        proof {
            assert forall|x: u64| m@.contains_key(x) <==> exists|k: int|
                0 <= k < i + 1 && (#[trigger] existing@[k]).id == x by {
                if m@.contains_key(x) && x != id {
                    let k = choose|k: int| 0 <= k < i && (#[trigger] existing@[k]).id == x;
                    assert(0 <= k < i + 1 && existing@[k].id == x);
                }
                if x == id {
                    assert(existing@[i as int].id == x);
                }
            }
        }
        i += 1;
    }
    m
}

/// The new roles of a member: each saved role that the map knows, mapped,
/// in order; the others are dropped.
pub open spec fn mapped_roles(old: Seq<u64>, role_map: Map<u64, u64>) -> Seq<u64>
    decreases old.len(),
{
    if old.len() == 0 {
        Seq::empty()
    } else {
        let prev = mapped_roles(old.drop_last(), role_map);
        if role_map.contains_key(old.last()) {
            prev.push(role_map[old.last()])
        } else {
            prev
        }
    }
}


/// What a restore does with a saved role: `@everyone` is never restored; a
/// role whose name an existing role already has maps onto the first such
/// role; any other role is created.
pub proof fn lemma_role_plan(name: Seq<char>, existing: Seq<ExistingRole>, i: int)
    ensures
        name == "@everyone"@ ==> role_plan_spec(name, existing) == RolePlan::Skip,
        name != "@everyone"@ && 0 <= i < existing.len() && existing[i].name@ == name && (forall|
            j: int,
        | 0 <= j < i ==> (#[trigger] existing[j]).name@ != name) ==> role_plan_spec(name, existing)
            == RolePlan::Reuse(existing[i].id),
        name != "@everyone"@ && (forall|j: int|
            0 <= j < existing.len() ==> (#[trigger] existing[j]).name@ != name) ==> role_plan_spec(
            name,
            existing,
        ) == RolePlan::Create,
{
    if name != "@everyone"@ && 0 <= i < existing.len() && existing[i].name@ == name && (forall|
        j: int,
    | 0 <= j < i ==> (#[trigger] existing[j]).name@ != name) {
        let k = choose|k: int|
            0 <= k < existing.len() && existing[k].name@ == name && forall|j: int|
                0 <= j < k ==> (#[trigger] existing[j]).name@ != name;
        assert(existing[i].name@ == name);
        if k != i {
            if k < i {
                assert(existing[k].name@ != name);
            } else {
                assert(existing[i].name@ != name);
            }
        }
    }
}

/// The roles a member gets back are exactly the new roles of their saved
/// roles that the restore mapped; saved roles that were not mapped are
/// dropped.
pub proof fn lemma_mapped_roles(old: Seq<u64>, role_map: Map<u64, u64>)
    ensures
        forall|r: u64|
            #[trigger] mapped_roles(old, role_map).contains(r) <==> exists|i: int|
                0 <= i < old.len() && role_map.contains_key(#[trigger] old[i]) && role_map[old[i]]
                    == r,
    decreases old.len(),
{
    if old.len() > 0 {
        let p = old.drop_last();
        let n = old.len() - 1;
        lemma_mapped_roles(p, role_map);
        let prev = mapped_roles(p, role_map);
        let cur = mapped_roles(old, role_map);
        assert forall|r: u64| #[trigger] cur.contains(r) <==> exists|i: int|
            0 <= i < old.len() && role_map.contains_key(#[trigger] old[i]) && role_map[old[i]]
                == r by {
            if cur.contains(r) {
                let k = choose|k: int| 0 <= k < cur.len() && cur[k] == r;
                if role_map.contains_key(old[n]) && k == prev.len() {
                    assert(role_map.contains_key(old[n]) && role_map[old[n]] == r);
                } else {
                    assert(prev[k] == r);
                    assert(prev.contains(r));
                    let j = choose|j: int|
                        0 <= j < p.len() && role_map.contains_key(#[trigger] p[j]) && role_map[p[j]]
                            == r;
                    assert(old[j] == p[j]);
                }
            }
            if exists|i: int|
                0 <= i < old.len() && role_map.contains_key(#[trigger] old[i]) && role_map[old[i]]
                    == r {
                let i = choose|i: int|
                    0 <= i < old.len() && role_map.contains_key(#[trigger] old[i]) && role_map[old[i]]
                        == r;
                if i == n {
                    assert(cur[prev.len() as int] == r);
                } else {
                    assert(p[i] == old[i]);
                    assert(prev.contains(r));
                    let k = choose|k: int| 0 <= k < prev.len() && prev[k] == r;
                    assert(cur[k] == r);
                }
            }
        }
    }
}

/// The roles a member gets back on restore.
pub fn map_member_roles(role_ids: &Vec<u64>, role_map: &HashMap<u64, u64>) -> (r: Vec<u64>)
    ensures
        r@ == mapped_roles(role_ids@, role_map@),
{
    let mut out: Vec<u64> = Vec::new();
    let mut i: usize = 0;
    assert(role_ids@.take(0) =~= Seq::<u64>::empty());
    while i < role_ids.len()
        invariant
            i <= role_ids.len(),
            out@ == mapped_roles(role_ids@.take(i as int), role_map@),
        decreases role_ids.len() - i,
    {
        assert(role_ids@.take(i + 1).drop_last() =~= role_ids@.take(i as int));
        assert(role_ids@.take(i + 1).last() == role_ids@[i as int]);
        match role_map.get(&role_ids[i]) {
            Some(v) => out.push(*v),
            None => {},
        }
        i += 1;
    }
    assert(role_ids@.take(role_ids.len() as int) =~= role_ids@);
    out
}

/// The channel to create when restoring a saved channel.
pub struct ChannelPlan {
    pub name: String,
    pub kind: ChannelKind,
    pub position: u16,
    pub nsfw: bool,
    pub category: Option<u64>,
    pub topic: Option<String>,
    pub bitrate: Option<u32>,
    pub user_limit: Option<u32>,
    pub slowmode: Option<u16>,
    /// The overwrites to set; none are set when the list is empty.
    pub overwrites: Vec<Overwrite>,
}

/// Whether a saved channel is a category (categories are restored first).
pub fn is_category(channel: &BackupChannel) -> (r: bool)
    ensures
        r == (channel.kind@ == "category"@),
{
    let k = chars_of(channel.kind.as_str());
    chars_are(&k, "category")
}

/// Plans the creation of a saved category: its name, the category kind,
/// and its position cut to 16 bits.
pub fn plan_category(channel: &BackupChannel) -> (r: ChannelPlan)
    ensures
        r.name@ == channel.name@,
        r.kind == ChannelKind::Category,
        r.position == channel.position as u16,
        !r.nsfw,
        r.category is None,
        r.topic is None,
        r.bitrate is None,
        r.user_limit is None,
        r.slowmode is None,
        r.overwrites@.len() == 0,
{
    ChannelPlan {
        name: channel.name.clone(),
        kind: ChannelKind::Category,
        position: channel.position as u16,
        nsfw: false,
        category: None,
        topic: None,
        bitrate: None,
        user_limit: None,
        slowmode: None,
        overwrites: Vec::new(),
    }
}

/// Plans the creation of a saved channel that is not a category: its
/// saved settings, its category when the category was restored (by the
/// map from old to new category ids), and its overwrites restored through
/// the role map.
pub fn plan_channel(
    channel: &BackupChannel,
    category_map: &HashMap<u64, u64>,
    role_map: &HashMap<u64, u64>,
) -> (r: ChannelPlan)
    requires
        member_targets_valid(channel.overwrites@),
    ensures
        r.name@ == channel.name@,
        r.kind == kind_of_name(channel.kind@),
        r.position == channel.position as u16,
        r.nsfw == channel.nsfw,
        r.category == (match channel.parent_id {
            Some(p) => if category_map@.contains_key(p) {
                Some(category_map@[p])
            } else {
                None
            },
            None => None,
        }),
        r.topic == channel.topic,
        r.bitrate == channel.bitrate,
        r.user_limit == channel.user_limit,
        r.slowmode == channel.slowmode,
        r.overwrites@ == restored_overwrites(channel.overwrites@, role_map@),
{
    let category = match channel.parent_id {
        Some(p) => match category_map.get(&p) {
            Some(c) => Some(*c),
            None => None,
        },
        None => None,
    };
    let topic = match &channel.topic {
        Some(t) => Some(t.clone()),
        None => None,
    };
    ChannelPlan {
        name: channel.name.clone(),
        kind: channel_kind_from_str(channel.kind.as_str()),
        position: channel.position as u16,
        nsfw: channel.nsfw,
        category,
        topic,
        bitrate: channel.bitrate,
        user_limit: channel.user_limit,
        slowmode: channel.slowmode,
        overwrites: deserialize_overwrites(&channel.overwrites, role_map),
    }
}

// ---------------------------------------------------------------------------
// Backup commands
// ---------------------------------------------------------------------------

/// What a `backup` command asks for.
#[derive(Debug, PartialEq, Eq)]
pub enum BackupRequest {
    /// No argument: show the menu.
    Menu,
    /// List the backups of a kind.
    List(&'static str),
    /// Delete the backup of a kind with a name.
    Delete(&'static str, String),
    /// Load the backup of a kind with a name.
    Load(&'static str, String),
    /// Save a backup of a kind under a name.
    Create(&'static str, String),
    /// The kind is not one the bot knows.
    InvalidKind,
    /// No name was given for a new backup.
    MissingName,
    /// A malformed `list`, `delete` or `load`: nothing is done.
    Ignore,
}

/// The kind named by the argument at `i`, when there is one.
pub open spec fn kind_arg(args: Seq<&str>, i: int) -> Option<Seq<char>> {
    if i < args.len() {
        backup_kind_of(str_lowercase(args[i]@))
    } else {
        None
    }
}

/// What the arguments of a `backup` command ask for. The first argument,
/// lowercased, is an action (`list <kind>`, `delete <kind> <name>`,
/// `load <kind> <name>`) or else the kind of a backup to create under the
/// name that follows; a malformed action does nothing.
pub open spec fn backup_request_spec(args: Seq<&str>, r: BackupRequest) -> bool {
    if args.len() == 0 {
        r is Menu
    } else {
        let action = str_lowercase(args[0]@);
        if action == "list"@ {
            match kind_arg(args, 1) {
                Some(k) => r matches BackupRequest::List(rk) && rk@ == k,
                None => r is Ignore,
            }
        } else if action == "delete"@ {
            match (if args.len() >= 3 { kind_arg(args, 1) } else { None }) {
                Some(k) => r matches BackupRequest::Delete(rk, n) && rk@ == k && n@ == args[2]@,
                None => r is Ignore,
            }
        } else if action == "load"@ {
            match (if args.len() >= 3 { kind_arg(args, 1) } else { None }) {
                Some(k) => r matches BackupRequest::Load(rk, n) && rk@ == k && n@ == args[2]@,
                None => r is Ignore,
            }
        } else {
            match backup_kind_of(str_lowercase(action)) {
                None => r is InvalidKind,
                Some(k) => if args.len() >= 2 {
                    r matches BackupRequest::Create(rk, n) && rk@ == k && n@ == args[1]@
                } else {
                    r is MissingName
                },
            }
        }
    }
}

/// The words of the backup kinds, once lowercased: `serveur`, `server`,
/// `srv` for a server backup; `emoji`, `emojis` for an emoji backup.
pub proof fn lemma_backup_kind_words(lower: Seq<char>)
    ensures
        (lower == "serveur"@ || lower == "server"@ || lower == "srv"@) ==> backup_kind_of(lower) == Some("server"@),
        (lower == "emoji"@ || lower == "emojis"@) ==> backup_kind_of(lower) == Some("emoji"@),
{
    reveal_strlit("serveur");
    reveal_strlit("server");
    reveal_strlit("srv");
    reveal_strlit("emoji");
    reveal_strlit("emojis");
    if lower == "server"@ {
        assert("server"@.len() != "serveur"@.len());
    }
    if lower == "srv"@ {
        assert("srv"@.len() != "serveur"@.len());
        assert("srv"@.len() != "server"@.len());
    }
    if lower == "emoji"@ {
        assert("emoji"@.len() != "serveur"@.len());
        assert("emoji"@.len() != "server"@.len());
        assert("emoji"@.len() != "srv"@.len());
    }
    if lower == "emojis"@ {
        assert("emojis"@.len() != "serveur"@.len());
        assert("emojis"@[0] != "server"@[0]);
        assert("emojis"@.len() != "srv"@.len());
        assert("emojis"@.len() != "emoji"@.len());
    }
}

/// A `backup` command with an action and a kind: `list <kind>` lists the
/// backups of that kind, `delete <kind> <name>` and `load <kind> <name>`
/// act on the named one, and a kind first creates a backup of it under the
/// next word; the action and the kind are read in any case.
pub proof fn lemma_backup_request_actions(args: Seq<&str>, r: BackupRequest)
    requires
        backup_request_spec(args, r),
        args.len() >= 2,
    ensures
        ({
            let a = str_lowercase(args[0]@);
            let k = str_lowercase(args[1]@);
            let server = k == "serveur"@ || k == "server"@ || k == "srv"@;
            let emoji = k == "emoji"@ || k == "emojis"@;
            &&& a == "list"@ && server ==> (r matches BackupRequest::List(rk) && rk@ == "server"@)
            &&& a == "list"@ && emoji ==> (r matches BackupRequest::List(rk) && rk@ == "emoji"@)
            &&& args.len() >= 3 && a == "delete"@ && server ==> (r matches BackupRequest::Delete(
                rk,
                n,
            ) && rk@ == "server"@ && n@ == args[2]@)
            &&& args.len() >= 3 && a == "delete"@ && emoji ==> (r matches BackupRequest::Delete(
                rk,
                n,
            ) && rk@ == "emoji"@ && n@ == args[2]@)
            &&& args.len() >= 3 && a == "load"@ && server ==> (r matches BackupRequest::Load(rk, n)
                && rk@ == "server"@ && n@ == args[2]@)
            &&& args.len() >= 3 && a == "load"@ && emoji ==> (r matches BackupRequest::Load(rk, n)
                && rk@ == "emoji"@ && n@ == args[2]@)
        }),
{
    reveal_strlit("list");
    reveal_strlit("delete");
    reveal_strlit("load");
    assert("list"@[1] != "load"@[1]);
    assert("list"@.len() != "delete"@.len());
    assert("load"@.len() != "delete"@.len());
    lemma_backup_kind_words(str_lowercase(args[1]@));
}

/// Reads the arguments of a `backup` command.
pub fn backup_request(args: &[&str]) -> (r: BackupRequest)
    ensures
        backup_request_spec(args@, r),
{
    if args.len() == 0 {
        return BackupRequest::Menu;
    }
    let first = chars_of(args[0]);
    let action = lowercase_chars(&first);
    if chars_are(&action, "list") {
        if args.len() < 2 {
            return BackupRequest::Ignore;
        }
        match parse_backup_kind(args[1]) {
            Some(k) => BackupRequest::List(k),
            None => BackupRequest::Ignore,
        }
    } else if chars_are(&action, "delete") || chars_are(&action, "load") {
        if args.len() < 3 {
            return BackupRequest::Ignore;
        }
        match parse_backup_kind(args[1]) {
            Some(k) => {
                let name = String::from_str(args[2]);
                if chars_are(&action, "delete") {
                    BackupRequest::Delete(k, name)
                } else {
                    BackupRequest::Load(k, name)
                }
            },
            None => BackupRequest::Ignore,
        }
    } else {
        let again = lowercase_chars(&action);
        match kind_of_lowercase(&again) {
            None => BackupRequest::InvalidKind,
            Some(k) => {
                if args.len() < 2 {
                    BackupRequest::MissingName
                } else {
                    BackupRequest::Create(k, String::from_str(args[1]))
                }
            },
        }
    }
}

/// What the arguments of an `autobackup` command set: the kind, and the
/// interval in days, at least one. Nothing is set without both arguments,
/// with an unknown kind, or with a day count that is not an `i32`.
pub open spec fn autobackup_request_spec(args: Seq<&str>) -> Option<(Seq<char>, i32)> {
    if args.len() < 2 {
        None
    } else {
        match (backup_kind_of(str_lowercase(args[0]@)), parse_i32_spec(args[1]@)) {
            (Some(k), Some(days)) => Some((k, if days < 1 { 1i32 } else { days })),
            _ => None,
        }
    }
}

/// Reads the arguments of an `autobackup` command.
pub fn autobackup_request(args: &[&str]) -> (r: Option<(&'static str, i32)>)
    ensures
        match r {
            Some((k, days)) => autobackup_request_spec(args@) == Some((k@, days)),
            None => autobackup_request_spec(args@) is None,
        },
{
    if args.len() < 2 {
        return None;
    }
    let kind = match parse_backup_kind(args[0]) {
        Some(k) => k,
        None => return None,
    };
    let raw = chars_of(args[1]);
    match parse_i32_chars(&raw) {
        Some(days) => Some((kind, if days < 1 { 1 } else { days })),
        None => None,
    }
}

// ---------------------------------------------------------------------------
// What the backup commands answer
// ---------------------------------------------------------------------------

/// One line of the list of backups: the name and when it was made.
pub open spec fn backup_line(name: Seq<char>, created_at: i64) -> Seq<char> {
    "- `"@ + name + "` · <t:"@ + signed_decimal(created_at as int) + ":R>"@
}

/// The list of backups, a line each, or a note that there are none.
pub open spec fn backup_list_spec(rows: Seq<(String, i64)>) -> Seq<char> {
    if rows.len() == 0 {
        "Aucune backup enregistrée."@
    } else {
        join_seq(Seq::new(rows.len(), |i: int| backup_line(rows[i].0@, rows[i].1)), "\n"@)
    }
}

/// Writes the list of backups (name, creation time in Unix seconds).
pub fn backup_list_text(rows: &Vec<(String, i64)>) -> (r: String)
    ensures
        r@ == backup_list_spec(rows@),
{
    if rows.len() == 0 {
        return String::from_str("Aucune backup enregistrée.");
    }
    let mut lines: Vec<Vec<char>> = Vec::new();
    let mut i: usize = 0;
    while i < rows.len()
        invariant
            i <= rows.len(),
            lines@.len() == i,
            forall|k: int|
                0 <= k < i ==> (#[trigger] lines@[k])@ == backup_line(rows@[k].0@, rows@[k].1),
        decreases rows.len() - i,
    {
        let mut v: Vec<char> = Vec::new();
        extend_str(&mut v, "- `");
        extend_str(&mut v, rows[i].0.as_str());
        extend_str(&mut v, "` · <t:");
        push_signed_decimal(&mut v, rows[i].1);
        extend_str(&mut v, ":R>");
        lines.push(v);
        i += 1;
    }
    assert(views_of(lines@) =~= Seq::new(
        rows@.len(),
        |k: int| backup_line(rows@[k].0@, rows@[k].1),
    ));
    let joined = join_chars(&lines, "\n");
    string_of(&joined)
}

/// The answer to deleting a backup: deleted, or not found.
pub fn backup_deleted_text(name: &str, deleted_rows: u64) -> (r: String)
    ensures
        r@ == (if deleted_rows > 0 {
            "Backup `"@ + name@ + "` supprimée."@
        } else {
            "Aucune backup `"@ + name@ + "` trouvée."@
        }),
{
    let mut v: Vec<char> = Vec::new();
    if deleted_rows > 0 {
        extend_str(&mut v, "Backup `");
        extend_str(&mut v, name);
        extend_str(&mut v, "` supprimée.");
    } else {
        extend_str(&mut v, "Aucune backup `");
        extend_str(&mut v, name);
        extend_str(&mut v, "` trouvée.");
    }
    string_of(&v)
}

/// The answer to creating a backup from the command.
pub fn backup_created_text(name: &str, kind: &str) -> (r: String)
    ensures
        r@ == "Backup `"@ + name@ + "` de type `"@ + kind@ + "` créée."@,
{
    let mut v: Vec<char> = Vec::new();
    extend_str(&mut v, "Backup `");
    extend_str(&mut v, name);
    extend_str(&mut v, "` de type `");
    extend_str(&mut v, kind);
    extend_str(&mut v, "` créée.");
    string_of(&v)
}

/// The answer to creating a backup from the form.
pub fn backup_created_form_text(name: &str, kind: &str) -> (r: String)
    ensures
        r@ == "Backup `"@ + name@ + "` ("@ + kind@ + ") créée."@,
{
    let mut v: Vec<char> = Vec::new();
    extend_str(&mut v, "Backup `");
    extend_str(&mut v, name);
    extend_str(&mut v, "` (");
    extend_str(&mut v, kind);
    extend_str(&mut v, ") créée.");
    string_of(&v)
}

/// The answer to restoring an emoji backup.
pub fn emoji_restore_text(created: u64) -> (r: String)
    ensures
        r@ == "Load emoji terminé: "@ + decimal(created as nat) + " emojis créés."@,
{
    let mut v: Vec<char> = Vec::new();
    extend_str(&mut v, "Load emoji terminé: ");
    push_decimal(&mut v, created);
    extend_str(&mut v, " emojis créés.");
    string_of(&v)
}

/// The answer to restoring a server backup: roles and channels created
/// and members given their roles back; the command says the members were
/// synchronised, the form just counts them.
pub fn server_restore_text(roles: u64, channels: u64, members: u64, from_form: bool) -> (r:
    String)
    ensures
        r@ == "Load serveur terminé: "@ + decimal(roles as nat) + " rôles, "@ + decimal(
            channels as nat,
        ) + " salons, "@ + decimal(members as nat) + (if from_form {
            " membres."@
        } else {
            " membres synchronisés."@
        }),
{
    let mut v: Vec<char> = Vec::new();
    extend_str(&mut v, "Load serveur terminé: ");
    push_decimal(&mut v, roles);
    extend_str(&mut v, " rôles, ");
    push_decimal(&mut v, channels);
    extend_str(&mut v, " salons, ");
    push_decimal(&mut v, members);
    if from_form {
        extend_str(&mut v, " membres.");
    } else {
        extend_str(&mut v, " membres synchronisés.");
    }
    string_of(&v)
}

/// The answer to setting up automatic backups.
pub fn autobackup_text(kind: &str, days: i32) -> (r: String)
    ensures
        r@ == "Auto-backup `"@ + kind@ + "` configurée toutes les "@ + signed_decimal(days as int)
            + " jours."@,
{
    let mut v: Vec<char> = Vec::new();
    extend_str(&mut v, "Auto-backup `");
    extend_str(&mut v, kind);
    extend_str(&mut v, "` configurée toutes les ");
    push_signed_decimal(&mut v, days as i64);
    extend_str(&mut v, " jours.");
    string_of(&v)
}

/// The name typed in a backup form, trimmed, or `default` when the form
/// has none.
pub fn backup_form_name(name: Option<&str>, default: &str) -> (r: String)
    ensures
        r@ == trim_seq(
            match name {
                Some(n) => n@,
                None => default@,
            },
        ),
{
    let v = match name {
        Some(n) => chars_of(n),
        None => chars_of(default),
    };
    let t = trim_chars(&v);
    string_of(&t)
}

// ---------------------------------------------------------------------------
// Order of a backup
// ---------------------------------------------------------------------------

/// The items of `s` whose key is `k`, in order.
pub open spec fn with_key<T, K>(s: Seq<T>, key: spec_fn(T) -> K, k: K) -> Seq<T>
    decreases s.len(),
{
    if s.len() == 0 {
        Seq::empty()
    } else {
        let prev = with_key(s.drop_last(), key, k);
        if key(s.last()) == k {
            prev.push(s.last())
        } else {
            prev
        }
    }
}

proof fn lemma_with_key_insert<T, K>(s: Seq<T>, key: spec_fn(T) -> K, j: int, x: T, k: K)
    requires
        0 <= j <= s.len(),
        key(x) == k ==> forall|m: int| j <= m < s.len() ==> key(#[trigger] s[m]) != k,
    ensures
        with_key(s.insert(j, x), key, k) == (if key(x) == k {
            with_key(s, key, k).push(x)
        } else {
            with_key(s, key, k)
        }),
    decreases s.len(),
{
    if j == s.len() {
        assert(s.insert(j, x) =~= s.push(x));
        assert(s.push(x).drop_last() =~= s);
    } else {
        let t = s.drop_last();
        assert(s.insert(j, x) =~= t.insert(j, x).push(s.last()));
        assert(t.insert(j, x).push(s.last()).drop_last() =~= t.insert(j, x));
        if key(x) == k {
            assert forall|m: int| j <= m < t.len() implies key(#[trigger] t[m]) != k by {
                assert(t[m] == s[m]);
            }
            assert(key(s[s.len() - 1]) != k);
        }
        lemma_with_key_insert(t, key, j, x, k);
    }
}

proof fn lemma_with_key_take<T, K>(s: Seq<T>, key: spec_fn(T) -> K, n: int, k: K)
    requires
        0 <= n < s.len(),
    ensures
        with_key(s.take(n + 1), key, k) == (if key(s[n]) == k {
            with_key(s.take(n), key, k).push(s[n])
        } else {
            with_key(s.take(n), key, k)
        }),
{
    assert(s.take(n + 1).drop_last() =~= s.take(n));
}

/// The roles go up by position.
pub open spec fn sorted_by_position(s: Seq<BackupRole>) -> bool {
    forall|i: int, j: int| 0 <= i < j < s.len() ==> s[i].position <= s[j].position
}

/// The key roles are sorted by: their position.
pub open spec fn role_key() -> spec_fn(BackupRole) -> i64 {
    |x: BackupRole| x.position
}

/// Sorts the roles of a backup by position, keeping the order of roles
/// at the same position (`sort_by_key`, a stable sort): the roles come out
/// by position, and those at each position in the order they came in.
pub fn sort_roles_by_position(roles: Vec<BackupRole>) -> (r: Vec<BackupRole>)
    ensures
        sorted_by_position(r@),
        forall|p: i64|
            #[trigger] with_key(r@, role_key(), p) == with_key(roles@, role_key(), p),
{
    let ghost orig = roles@;
    let ghost key = role_key();
    let mut input = roles;
    let total = input.len();
    let mut out: Vec<BackupRole> = Vec::new();
    let mut n: usize = 0;
    assert(orig.skip(0) =~= orig);
    while input.len() > 0
        invariant
            n <= orig.len(),
            orig.len() == total,
            key == role_key(),
            input@ == orig.skip(n as int),
            sorted_by_position(out@),
            forall|p: i64| #[trigger] with_key(out@, key, p) == with_key(orig.take(n as int), key, p),
        decreases input.len(),
    {
        assert(n < orig.len());
        let x = input.remove(0);
        assert(x == orig[n as int]);
        assert(input@ =~= orig.skip(n + 1));
        let mut j: usize = 0;
        while j < out.len() && out[j].position <= x.position
            invariant
                j <= out.len(),
                forall|m: int| 0 <= m < j ==> out@[m].position <= x.position,
            decreases out.len() - j,
        {
            j += 1;
        }
        let ghost before = out@;
        out.insert(j, x);
        assert(out@ =~= before.insert(j as int, x));
        assert forall|m: int| j <= m < before.len() implies key(#[trigger] before[m]) != key(x) by {
            assert(key(before[m]) == before[m].position && key(x) == x.position);
            assert(before[j as int].position > x.position);
            if m > j {
                assert(before[j as int].position <= before[m].position);
            }
        }
        assert forall|a: int, b: int| 0 <= a < b < out@.len() implies out@[a].position
            <= out@[b].position by {
            if b < j {
                assert(out@[a] == before[a] && out@[b] == before[b]);
            } else if b == j {
                assert(out@[a] == before[a]);
            } else if a < j {
                assert(out@[a] == before[a] && out@[b] == before[b - 1]);
                assert(before[j as int].position > x.position);
                if b - 1 > j {
                    assert(before[j as int].position <= before[b - 1].position);
                }
            } else if a == j {
                assert(out@[b] == before[b - 1]);
                assert(before[j as int].position > x.position);
                if b - 1 > j {
                    assert(before[j as int].position <= before[b - 1].position);
                }
            } else {
                assert(out@[a] == before[a - 1] && out@[b] == before[b - 1]);
            }
        }
        assert forall|p: i64| #[trigger] with_key(out@, key, p) == with_key(
            orig.take(n + 1),
            key,
            p,
        ) by {
            lemma_with_key_insert(before, key, j as int, x, p);
            lemma_with_key_take(orig, key, n as int, p);
        }
        n += 1;
    }
    assert(orig.take(n as int) =~= orig);
    out
}

/// Characters in the order of their code points, first difference first;
/// a text comes before the texts it begins (the order of `String`, whose
/// UTF-8 bytes order as the code points do).
pub open spec fn text_le(a: Seq<char>, b: Seq<char>) -> bool
    decreases a.len(),
{
    if a.len() == 0 {
        true
    } else if b.len() == 0 {
        false
    } else if a[0] != b[0] {
        a[0] < b[0]
    } else {
        text_le(a.drop_first(), b.drop_first())
    }
}

proof fn lemma_text_le_total(a: Seq<char>, b: Seq<char>)
    ensures
        text_le(a, b) || text_le(b, a),
        text_le(a, b) && text_le(b, a) ==> a == b,
    decreases a.len(),
{
    if a.len() > 0 && b.len() > 0 && a[0] == b[0] {
        lemma_text_le_total(a.drop_first(), b.drop_first());
        if a.drop_first() == b.drop_first() {
            assert(a =~= seq![a[0]] + a.drop_first());
            assert(b =~= seq![b[0]] + b.drop_first());
        }
    }
    if a.len() == 0 && b.len() == 0 {
        assert(a =~= b);
    }
}

proof fn lemma_text_le_trans(a: Seq<char>, b: Seq<char>, c: Seq<char>)
    requires
        text_le(a, b),
        text_le(b, c),
    ensures
        text_le(a, c),
    decreases a.len(),
{
    if a.len() > 0 && b.len() > 0 && c.len() > 0 && a[0] == b[0] && b[0] == c[0] {
        lemma_text_le_trans(a.drop_first(), b.drop_first(), c.drop_first());
    }
}

proof fn lemma_text_le_refl(a: Seq<char>)
    ensures
        text_le(a, a),
    decreases a.len(),
{
    if a.len() > 0 {
        lemma_text_le_refl(a.drop_first());
    }
}

/// The order of saved channels: by position, then by name.
pub open spec fn channel_le(a: BackupChannel, b: BackupChannel) -> bool {
    a.position < b.position || (a.position == b.position && text_le(a.name@, b.name@))
}

proof fn lemma_channel_le_trans(a: BackupChannel, b: BackupChannel, c: BackupChannel)
    requires
        channel_le(a, b),
        channel_le(b, c),
    ensures
        channel_le(a, c),
{
    if a.position == b.position && b.position == c.position {
        lemma_text_le_trans(a.name@, b.name@, c.name@);
    }
}

proof fn lemma_channel_le_total(a: BackupChannel, b: BackupChannel)
    ensures
        channel_le(a, b) || channel_le(b, a),
{
    lemma_text_le_total(a.name@, b.name@);
}

/// The channels go up by position, then by name.
pub open spec fn sorted_channels(s: Seq<BackupChannel>) -> bool {
    forall|i: int, j: int| 0 <= i < j < s.len() ==> channel_le(s[i], s[j])
}

/// The key channels are sorted by: their position and name.
pub open spec fn channel_key() -> spec_fn(BackupChannel) -> (i64, Seq<char>) {
    |c: BackupChannel| (c.position, c.name@)
}

/// `a <= b` on texts, in the order of their characters' code points.
fn text_le_exec(a: &Vec<char>, b: &Vec<char>) -> (r: bool)
    ensures
        r == text_le(a@, b@),
{
    let mut i: usize = 0;
    assert(a@.skip(0) =~= a@ && b@.skip(0) =~= b@);
    while i < a.len() && i < b.len() && a[i] == b[i]
        invariant
            i <= a.len(),
            i <= b.len(),
            text_le(a@, b@) == text_le(a@.skip(i as int), b@.skip(i as int)),
        decreases a.len() - i,
    {
        assert(a@.skip(i as int).drop_first() =~= a@.skip(i + 1));
        assert(b@.skip(i as int).drop_first() =~= b@.skip(i + 1));
        i += 1;
    }
    if i == a.len() {
        true
    } else if i == b.len() {
        false
    } else {
        a[i] < b[i]
    }
}

/// Whether channel `a` comes before (or with) channel `b` in a backup.
fn channel_le_exec(a: &BackupChannel, b: &BackupChannel) -> (r: bool)
    ensures
        r == channel_le(*a, *b),
{
    if a.position < b.position {
        true
    } else if a.position == b.position {
        let an = chars_of(a.name.as_str());
        let bn = chars_of(b.name.as_str());
        text_le_exec(&an, &bn)
    } else {
        false
    }
}

/// Sorts the channels of a backup by position, then by name, keeping the
/// order of channels with the same position and name (`sort_by`, a stable
/// sort).
pub fn sort_channels(channels: Vec<BackupChannel>) -> (r: Vec<BackupChannel>)
    ensures
        sorted_channels(r@),
        forall|k: (i64, Seq<char>)|
            #[trigger] with_key(r@, channel_key(), k) == with_key(channels@, channel_key(), k),
{
    let ghost orig = channels@;
    let ghost key = channel_key();
    let mut input = channels;
    let total = input.len();
    let mut out: Vec<BackupChannel> = Vec::new();
    let mut n: usize = 0;
    assert(orig.skip(0) =~= orig);
    while input.len() > 0
        invariant
            n <= orig.len(),
            orig.len() == total,
            key == channel_key(),
            input@ == orig.skip(n as int),
            sorted_channels(out@),
            forall|k: (i64, Seq<char>)| #[trigger] with_key(out@, key, k) == with_key(
                orig.take(n as int),
                key,
                k,
            ),
        decreases input.len(),
    {
        assert(n < orig.len());
        let x = input.remove(0);
        assert(x == orig[n as int]);
        assert(input@ =~= orig.skip(n + 1));
        let mut j: usize = 0;
        while j < out.len() && channel_le_exec(&out[j], &x)
            invariant
                j <= out.len(),
                forall|m: int| 0 <= m < j ==> channel_le(out@[m], x),
            decreases out.len() - j,
        {
            j += 1;
        }
        let ghost before = out@;
        proof {
            if j < before.len() {
                assert(!channel_le(before[j as int], x));
                lemma_text_le_total(before[j as int].name@, x.name@);
            }
        }
        out.insert(j, x);
        assert(out@ =~= before.insert(j as int, x));
        assert forall|m: int| j <= m < before.len() implies key(#[trigger] before[m]) != key(x) by {
            assert(key(before[m]) == (before[m].position, before[m].name@));
            assert(key(x) == (x.position, x.name@));
            if key(before[m]) == key(x) {
                lemma_text_le_refl(x.name@);
                assert(channel_le(before[m], x));
                if m > j {
                    assert(channel_le(before[j as int], before[m]));
                    lemma_channel_le_trans(before[j as int], before[m], x);
                }
                assert(channel_le(before[j as int], x));
            }
        }
        assert forall|a: int, b: int| 0 <= a < b < out@.len() implies channel_le(
            out@[a],
            out@[b],
        ) by {
            if b < j {
                assert(out@[a] == before[a] && out@[b] == before[b]);
            } else if b == j {
                assert(out@[a] == before[a]);
            } else if a < j {
                assert(out@[a] == before[a] && out@[b] == before[b - 1]);
                assert(channel_le(before[a], x));
                lemma_channel_le_total(before[j as int], x);
                if b - 1 > j {
                    assert(channel_le(before[j as int], before[b - 1]));
                    lemma_channel_le_trans(x, before[j as int], before[b - 1]);
                }
                lemma_channel_le_trans(before[a], x, before[b - 1]);
            } else if a == j {
                assert(out@[b] == before[b - 1]);
                lemma_channel_le_total(before[j as int], x);
                if b - 1 > j {
                    assert(channel_le(before[j as int], before[b - 1]));
                    lemma_channel_le_trans(x, before[j as int], before[b - 1]);
                }
            } else {
                assert(out@[a] == before[a - 1] && out@[b] == before[b - 1]);
            }
        }
        assert forall|k: (i64, Seq<char>)| #[trigger] with_key(out@, key, k) == with_key(
            orig.take(n + 1),
            key,
            k,
        ) by {
            lemma_with_key_insert(before, key, j as int, x, k);
            lemma_with_key_take(orig, key, n as int, k);
        }
        n += 1;
    }
    assert(orig.take(n as int) =~= orig);
    out
}

} // verus!
