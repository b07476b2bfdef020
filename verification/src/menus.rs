//! The settings menus of tickets, temporary voice channels and
//! suggestions: how their buttons and forms are routed, the names given to
//! the channels they create, the permissions of a ticket, and what the
//! menus read from their forms.
use serenity::all::Permissions;
use vstd::prelude::*;

use crate::backup::{Overwrite, OverwriteTarget};
use crate::components::{mention_body, owner_split, parse_owner_id, parse_user_id};
use crate::text::{
    chars_of, is_ascii_char, is_ascii_seq, is_ascii_upper, no_ascii_upper, contains_seq, decimal, extend_str, is_ascii_alnum, is_ascii_alphanumeric,
    is_whitespace, is_ws, join_args, join_seq, lowercase_chars, parse_i64_chars, parse_i64_spec,
    parse_u64_spec, push_decimal, push_signed_decimal, signed_decimal, starts_with_seq,
    starts_with_str, str_lowercase, str_views, string_of, strip_end, strip_end_chars, strip_start,
    strip_start_chars, trim_chars, trim_seq,
};

verus! {

// ---------------------------------------------------------------------------
// Channel names
// ---------------------------------------------------------------------------

/// A character that becomes a dash in a channel name.
pub open spec fn is_dash_source(c: char) -> bool {
    is_ws(c) || c == '-' || c == '_'
}

/// Scans a (lowercased) name: ASCII letters and digits are kept; a run of
/// spaces, dashes and underscores becomes one dash, unless a dash was just
/// written; anything else is dropped. Gives what was written and whether
/// the last thing written was a dash.
pub open spec fn sanitize_scan(s: Seq<char>) -> (Seq<char>, bool)
    decreases s.len(),
{
    if s.len() == 0 {
        (Seq::empty(), false)
    } else {
        let (out, prev) = sanitize_scan(s.drop_last());
        let c = s.last();
        if is_ascii_alnum(c) {
            (out.push(c), false)
        } else if is_dash_source(c) && !prev {
            (out.push('-'), true)
        } else {
            (out, prev)
        }
    }
}

/// `s` without dashes at either end (`trim_matches('-')`).
pub open spec fn trim_dashes(s: Seq<char>) -> Seq<char> {
    strip_end(strip_start(s, '-'), '-')
}

/// The channel name made from a text: lowercased, scanned, and trimmed of
/// dashes.
pub open spec fn sanitized_name(input: Seq<char>) -> Seq<char> {
    trim_dashes(sanitize_scan(str_lowercase(input)).0)
}

/// Turns a text into a channel name: lowercase ASCII letters, digits, and
/// single dashes between them.
pub fn sanitize_channel_name(input: &str) -> (r: String)
    ensures
        r@ == sanitized_name(input@),
        is_lower_clean_name(r@),
        is_lower_clean_name(input@) ==> r@ == input@,
        without_dashes(r@) == ascii_alnum_of(str_lowercase(input@)),
{
    let v = chars_of(input);
    let lower = lowercase_chars(&v);
    let mut out: Vec<char> = Vec::new();
    let mut previous_dash = false;
    let mut i: usize = 0;
    while i < lower.len()
        invariant
            i <= lower.len(),
            (out@, previous_dash) == sanitize_scan(lower@.take(i as int)),
        decreases lower.len() - i,
    {
        assert(lower@.take(i + 1).drop_last() =~= lower@.take(i as int));
        let c = lower[i];
        if is_ascii_alphanumeric(c) {
            out.push(c);
            previous_dash = false;
        } else if (is_whitespace(c) || c == '-' || c == '_') && !previous_dash {
            out.push('-');
            previous_dash = true;
        }
        i += 1;
    }
    assert(lower@.take(lower.len() as int) =~= lower@);
    let a = strip_start_chars(&out, '-');
    let b = strip_end_chars(&a, '-');
    proof {
        lemma_sanitized_name_clean(input@);
        lemma_sanitized_keeps_alnum(input@);
        lemma_trimmed_scan_lower(lower@);
        if is_lower_clean_name(input@) {
            assert(is_ascii_seq(v@)) by {
                assert forall|i: int| 0 <= i < v@.len() implies is_ascii_char(#[trigger] v@[i]) by {
                    assert(is_ascii_alnum(input@[i]) || input@[i] == '-');
                }
            }
            assert(lower@ =~= v@) by {
                assert forall|i: int| 0 <= i < v@.len() implies lower@[i] == v@[i] by {
                    assert(!is_ascii_upper(input@[i]));
                }
            }
            lemma_clean_name_fixed(input@);
        }
    }
    string_of(&b)
}

/// Turns a member's name into the name of a temporary voice channel, as
/// for any channel.
pub fn sanitize_voice_name(input: &str) -> (r: String)
    ensures
        r@ == sanitized_name(input@),
        is_lower_clean_name(r@),
        is_lower_clean_name(input@) ==> r@ == input@,
        without_dashes(r@) == ascii_alnum_of(str_lowercase(input@)),
{
    sanitize_channel_name(input)
}

/// A clean channel name: ASCII letters, digits and dashes only, no two
/// dashes in a row, and no dash at either end.
pub open spec fn is_clean_name(s: Seq<char>) -> bool {
    &&& forall|i: int| 0 <= i < s.len() ==> is_ascii_alnum(#[trigger] s[i]) || s[i] == '-'
    &&& forall|i: int, j: int|
        0 <= i && j == i + 1 && j < s.len() ==> !(#[trigger] s[i] == '-' && #[trigger] s[j]
            == '-')
    &&& s.len() > 0 ==> s[0] != '-' && s.last() != '-'
}

proof fn lemma_scan_clean(s: Seq<char>)
    ensures
        forall|i: int|
            0 <= i < sanitize_scan(s).0.len() ==> is_ascii_alnum(#[trigger] sanitize_scan(s).0[i])
                || sanitize_scan(s).0[i] == '-',
        forall|i: int, j: int|
            0 <= i && j == i + 1 && j < sanitize_scan(s).0.len() ==> !(
            #[trigger] sanitize_scan(s).0[i] == '-' && #[trigger] sanitize_scan(s).0[j] == '-'),
        sanitize_scan(s).1 == (sanitize_scan(s).0.len() > 0 && sanitize_scan(s).0.last() == '-'),
    decreases s.len(),
{
    if s.len() > 0 {
        lemma_scan_clean(s.drop_last());
        let (out, prev) = sanitize_scan(s.drop_last());
        let c = s.last();
        let o = sanitize_scan(s).0;
        if is_ascii_alnum(c) {
            assert(o == out.push(c));
            assert forall|i: int| 0 <= i < o.len() implies is_ascii_alnum(#[trigger] o[i]) || o[i]
                == '-' by {
                if i < out.len() {
                    assert(o[i] == out[i]);
                }
            }
            assert forall|i: int, j: int|
                0 <= i && j == i + 1 && j < o.len() implies !(#[trigger] o[i] == '-'
                && #[trigger] o[j] == '-') by {
                if j < out.len() {
                    assert(o[i] == out[i] && o[j] == out[j]);
                }
            }
        } else if is_dash_source(c) && !prev {
            assert(o == out.push('-'));
            assert forall|i: int| 0 <= i < o.len() implies is_ascii_alnum(#[trigger] o[i]) || o[i]
                == '-' by {
                if i < out.len() {
                    assert(o[i] == out[i]);
                }
            }
            assert forall|i: int, j: int|
                0 <= i && j == i + 1 && j < o.len() implies !(#[trigger] o[i] == '-'
                && #[trigger] o[j] == '-') by {
                if j < out.len() {
                    assert(o[i] == out[i] && o[j] == out[j]);
                } else {
                    assert(o[i] == out[i]);
                    assert(out.last() == out[i]);
                }
            }
        }
    }
}

proof fn lemma_strip_start_suffix(s: Seq<char>, c: char)
    ensures
        exists|k: int| 0 <= k <= s.len() && strip_start(s, c) == s.skip(k),
        strip_start(s, c).len() > 0 ==> strip_start(s, c)[0] != c,
    decreases s.len(),
{
    if s.len() > 0 && s[0] == c {
        lemma_strip_start_suffix(s.drop_first(), c);
        let k = choose|k: int|
            0 <= k <= s.drop_first().len() && strip_start(s.drop_first(), c) == s.drop_first().skip(
                k,
            );
        assert(s.drop_first().skip(k) =~= s.skip(k + 1));
    } else {
        assert(s.skip(0) =~= s);
    }
}

proof fn lemma_strip_end_prefix(s: Seq<char>, c: char)
    ensures
        exists|k: int| 0 <= k <= s.len() && strip_end(s, c) == s.take(k),
        strip_end(s, c).len() > 0 ==> strip_end(s, c).last() != c,
    decreases s.len(),
{
    if s.len() > 0 && s.last() == c {
        lemma_strip_end_prefix(s.drop_last(), c);
        let k = choose|k: int|
            0 <= k <= s.drop_last().len() && strip_end(s.drop_last(), c) == s.drop_last().take(k);
        assert(s.drop_last().take(k) =~= s.take(k));
    } else {
        assert(s.take(s.len() as int) =~= s);
    }
}

/// Every channel name made from a text is clean, whatever the text.
pub proof fn lemma_sanitized_name_clean(input: Seq<char>)
    ensures
        is_clean_name(sanitized_name(input)),
{
    let scanned = sanitize_scan(str_lowercase(input)).0;
    lemma_scan_clean(str_lowercase(input));
    lemma_strip_start_suffix(scanned, '-');
    let a = strip_start(scanned, '-');
    let k = choose|k: int| 0 <= k <= scanned.len() && a == scanned.skip(k);
    lemma_strip_end_prefix(a, '-');
    let b = strip_end(a, '-');
    let m = choose|m: int| 0 <= m <= a.len() && b == a.take(m);
    assert forall|i: int| 0 <= i < b.len() implies is_ascii_alnum(#[trigger] b[i]) || b[i]
        == '-' by {
        assert(b[i] == scanned[k + i]);
    }
    assert forall|i: int, j: int| 0 <= i && j == i + 1 && j < b.len() implies !(#[trigger] b[i]
        == '-' && #[trigger] b[j] == '-') by {
        assert(b[i] == scanned[k + i] && b[j] == scanned[k + j]);
    }
    if b.len() > 0 {
        assert(b[0] == a[0]);
    }
}

/// The characters of `s` other than dashes, in order.
pub open spec fn without_dashes(s: Seq<char>) -> Seq<char>
    decreases s.len(),
{
    if s.len() == 0 {
        s
    } else if s.last() == '-' {
        without_dashes(s.drop_last())
    } else {
        without_dashes(s.drop_last()).push(s.last())
    }
}

/// The ASCII letters and digits of `s`, in order.
pub open spec fn ascii_alnum_of(s: Seq<char>) -> Seq<char>
    decreases s.len(),
{
    if s.len() == 0 {
        s
    } else if is_ascii_alnum(s.last()) {
        ascii_alnum_of(s.drop_last()).push(s.last())
    } else {
        ascii_alnum_of(s.drop_last())
    }
}

proof fn lemma_without_dashes_concat(a: Seq<char>, b: Seq<char>)
    ensures
        without_dashes(a + b) == without_dashes(a) + without_dashes(b),
    decreases b.len(),
{
    if b.len() == 0 {
        assert(a + b =~= a);
        assert(without_dashes(a) + without_dashes(b) =~= without_dashes(a));
    } else {
        lemma_without_dashes_concat(a, b.drop_last());
        assert((a + b).drop_last() =~= a + b.drop_last());
        assert((a + b).last() == b.last());
        if b.last() != '-' {
            assert(without_dashes(a) + without_dashes(b.drop_last()).push(b.last()) =~= (
            without_dashes(a) + without_dashes(b.drop_last())).push(b.last()));
        }
    }
}

proof fn lemma_scan_alnum(s: Seq<char>)
    ensures
        without_dashes(sanitize_scan(s).0) == ascii_alnum_of(s),
    decreases s.len(),
{
    if s.len() > 0 {
        lemma_scan_alnum(s.drop_last());
        let out = sanitize_scan(s.drop_last()).0;
        let c = s.last();
        assert(out.push(c).drop_last() =~= out);
        assert(out.push('-').drop_last() =~= out);
    }
}

proof fn lemma_strip_dashes_keeps(s: Seq<char>)
    ensures
        without_dashes(strip_start(s, '-')) == without_dashes(s),
        without_dashes(strip_end(s, '-')) == without_dashes(s),
    decreases s.len(),
{
    if s.len() > 0 {
        lemma_strip_dashes_keeps(s.drop_first());
        lemma_strip_dashes_keeps(s.drop_last());
        if s[0] == '-' {
            lemma_without_dashes_concat(seq!['-'], s.drop_first());
            assert(seq!['-'] + s.drop_first() =~= s);
            assert(seq!['-'].drop_last() =~= Seq::<char>::empty());
            assert(seq!['-'].last() == '-');
            assert(without_dashes(Seq::<char>::empty()) == Seq::<char>::empty());
            assert(without_dashes(seq!['-']) =~= Seq::<char>::empty());
            assert(Seq::<char>::empty() + without_dashes(s.drop_first()) =~= without_dashes(
                s.drop_first(),
            ));
        }
    }
}

/// The letters and digits of a sanitized name are exactly the ASCII
/// letters and digits of the lowercased text, in order: the dashes are all
/// that is added.
pub proof fn lemma_sanitized_keeps_alnum(input: Seq<char>)
    ensures
        without_dashes(sanitized_name(input)) == ascii_alnum_of(str_lowercase(input)),
{
    let scanned = sanitize_scan(str_lowercase(input)).0;
    lemma_scan_alnum(str_lowercase(input));
    lemma_strip_dashes_keeps(scanned);
    lemma_strip_dashes_keeps(strip_start(scanned, '-'));
}

/// A clean channel name with no capital letter: lowercase ASCII letters,
/// digits and single inner dashes.
pub open spec fn is_lower_clean_name(s: Seq<char>) -> bool {
    is_clean_name(s) && no_ascii_upper(s)
}

proof fn lemma_scan_lower(s: Seq<char>)
    requires
        no_ascii_upper(s),
    ensures
        no_ascii_upper(sanitize_scan(s).0),
    decreases s.len(),
{
    if s.len() > 0 {
        lemma_scan_lower(s.drop_last());
        let out = sanitize_scan(s.drop_last()).0;
        let o = sanitize_scan(s).0;
        assert(!is_ascii_upper(s[s.len() - 1]));
        assert forall|i: int| 0 <= i < o.len() implies !is_ascii_upper(#[trigger] o[i]) by {
            if i < out.len() {
                assert(o[i] == out[i]);
            }
        }
    }
}

proof fn lemma_trimmed_scan_lower(lower: Seq<char>)
    requires
        no_ascii_upper(lower),
    ensures
        no_ascii_upper(trim_dashes(sanitize_scan(lower).0)),
{
    let scanned = sanitize_scan(lower).0;
    lemma_scan_lower(lower);
    lemma_strip_start_suffix(scanned, '-');
    let a = strip_start(scanned, '-');
    let k = choose|k: int| 0 <= k <= scanned.len() && a == scanned.skip(k);
    lemma_strip_end_prefix(a, '-');
    let b = strip_end(a, '-');
    let m = choose|m: int| 0 <= m <= a.len() && b == a.take(m);
    assert forall|i: int| 0 <= i < b.len() implies !is_ascii_upper(#[trigger] b[i]) by {
        assert(b[i] == scanned[k + i]);
    }
}

proof fn lemma_scan_keeps(s: Seq<char>)
    requires
        forall|i: int| 0 <= i < s.len() ==> is_ascii_alnum(#[trigger] s[i]) || s[i] == '-',
        forall|i: int, j: int|
            0 <= i && j == i + 1 && j < s.len() ==> !(#[trigger] s[i] == '-' && #[trigger] s[j]
                == '-'),
        s.len() > 0 ==> s[0] != '-',
    ensures
        sanitize_scan(s) == (s, s.len() > 0 && s.last() == '-'),
    decreases s.len(),
{
    if s.len() > 0 {
        let p = s.drop_last();
        assert forall|i: int| 0 <= i < p.len() implies is_ascii_alnum(#[trigger] p[i]) || p[i]
            == '-' by {
            assert(p[i] == s[i]);
        }
        assert forall|i: int, j: int| 0 <= i && j == i + 1 && j < p.len() implies !(
        #[trigger] p[i] == '-' && #[trigger] p[j] == '-') by {
            assert(p[i] == s[i] && p[j] == s[j]);
        }
        lemma_scan_keeps(p);
        let n = s.len() - 1;
        assert(is_ascii_alnum(s[n]) || s[n] == '-');
        if !is_ascii_alnum(s[n]) && n > 0 {
            assert(!(s[n - 1] == '-' && s[n] == '-'));
        }
        assert(p.push(s[n]) =~= s);
    }
}

/// Sanitizing a name that is already clean and lowercase leaves it as it
/// is: the scan keeps every character and there is no dash to trim.
pub proof fn lemma_clean_name_fixed(s: Seq<char>)
    requires
        is_lower_clean_name(s),
    ensures
        trim_dashes(sanitize_scan(s).0) == s,
{
    lemma_scan_keeps(s);
    if s.len() > 0 {
        assert(strip_start(s, '-') == s);
        assert(strip_end(s, '-') == s);
    } else {
        assert(strip_start(s, '-') == s);
        assert(strip_end(s, '-') == s);
    }
}

// ---------------------------------------------------------------------------
// Routing the settings menus
// ---------------------------------------------------------------------------

/// How a button or form of a settings menu is first routed.
#[derive(Debug, PartialEq, Eq)]
pub enum MenuRoute {
    /// Not an identifier of this menu.
    Unhandled,
    /// The menu belongs to another member.
    NotOwner,
    /// The owner's action, as written before the owner.
    Owner(String),
}

/// Routing by a menu's prefix: the identifier must start with it and end
/// with `:<owner>`, and only the owner may act.
pub open spec fn menu_route_spec(custom_id: Seq<char>, prefix: Seq<char>, user: u64, r: MenuRoute)
    -> bool {
    if !starts_with_seq(custom_id, prefix) {
        r is Unhandled
    } else {
        match owner_split(custom_id) {
            None => r is Unhandled,
            Some((action, owner)) => if owner != user {
                r is NotOwner
            } else {
                r matches MenuRoute::Owner(a) && a@ == action
            },
        }
    }
}

/// Routes a button or form of the settings menu whose identifiers start
/// with `prefix`, used by member `user_id`.
pub fn menu_route(custom_id: &str, prefix: &str, user_id: u64) -> (r: MenuRoute)
    ensures
        menu_route_spec(custom_id@, prefix@, user_id, r),
{
    let v = chars_of(custom_id);
    if !starts_with_str(&v, prefix) {
        return MenuRoute::Unhandled;
    }
    match parse_owner_id(custom_id) {
        None => MenuRoute::Unhandled,
        Some((action, owner)) => {
            if owner != user_id {
                MenuRoute::NotOwner
            } else {
                MenuRoute::Owner(action)
            }
        },
    }
}

/// What a settings-menu button or form asks for.
#[derive(Clone, Copy, Debug, PartialEq, Eq, Structural)]
pub enum MenuAction {
    Refresh,
    Toggle,
    Configure,
    Create,
    Submit,
}

/// `s` ends with `suffix`.
pub open spec fn ends_with_seq(s: Seq<char>, suffix: Seq<char>) -> bool {
    suffix.len() <= s.len() && s.skip(s.len() - suffix.len()) == suffix
}

fn ends_with_str(s: &Vec<char>, lit: &str) -> (r: bool)
    ensures
        r == ends_with_seq(s@, lit@),
{
    let w = chars_of(lit);
    if w.len() > s.len() {
        return false;
    }
    let off = s.len() - w.len();
    let mut i: usize = 0;
    while i < w.len()
        invariant
            i <= w.len(),
            w@ == lit@,
            off + w.len() == s.len(),
            forall|k: int| 0 <= k < i ==> s@[off + k] == w@[k],
        decreases w.len() - i,
    {
        if s[off + i] != w[i] {
            assert(s@.skip(off as int)[i as int] != w@[i as int]);
            return false;
        }
        i += 1;
    }
    assert(s@.skip(off as int) =~= w@);
    true
}

/// The action of a ticket-menu button, by the end of its action: refresh,
/// toggle, configure, create, checked in that order.
pub open spec fn ticket_button_spec(action: Seq<char>) -> Option<MenuAction> {
    if ends_with_seq(action, ":refresh"@) {
        Some(MenuAction::Refresh)
    } else if ends_with_seq(action, ":toggle"@) {
        Some(MenuAction::Toggle)
    } else if ends_with_seq(action, ":configure"@) {
        Some(MenuAction::Configure)
    } else if ends_with_seq(action, ":create"@) {
        Some(MenuAction::Create)
    } else {
        None
    }
}

/// The action of a ticket-menu form: configure, create.
pub open spec fn ticket_form_spec(action: Seq<char>) -> Option<MenuAction> {
    if ends_with_seq(action, ":configure"@) {
        Some(MenuAction::Configure)
    } else if ends_with_seq(action, ":create"@) {
        Some(MenuAction::Create)
    } else {
        None
    }
}

/// The action of a temporary-voice-menu button: configure, toggle,
/// refresh, checked in that order.
pub open spec fn tempvoc_button_spec(action: Seq<char>) -> Option<MenuAction> {
    if ends_with_seq(action, ":configure"@) {
        Some(MenuAction::Configure)
    } else if ends_with_seq(action, ":toggle"@) {
        Some(MenuAction::Toggle)
    } else if ends_with_seq(action, ":refresh"@) {
        Some(MenuAction::Refresh)
    } else {
        None
    }
}

/// The action of a suggestion-menu button: refresh, toggle, configure,
/// submit, checked in that order.
pub open spec fn suggestion_button_spec(action: Seq<char>) -> Option<MenuAction> {
    if ends_with_seq(action, ":refresh"@) {
        Some(MenuAction::Refresh)
    } else if ends_with_seq(action, ":toggle"@) {
        Some(MenuAction::Toggle)
    } else if ends_with_seq(action, ":configure"@) {
        Some(MenuAction::Configure)
    } else if ends_with_seq(action, ":submit"@) {
        Some(MenuAction::Submit)
    } else {
        None
    }
}

/// The action of a suggestion-menu form: configure, submit.
pub open spec fn suggestion_form_spec(action: Seq<char>) -> Option<MenuAction> {
    if ends_with_seq(action, ":configure"@) {
        Some(MenuAction::Configure)
    } else if ends_with_seq(action, ":submit"@) {
        Some(MenuAction::Submit)
    } else {
        None
    }
}

proof fn lemma_ends_with_own(p: Seq<char>, s: Seq<char>)
    ensures
        ends_with_seq(p + s, s),
{
    assert((p + s).skip((p + s).len() - s.len()) =~= s);
}

proof fn lemma_ends_with_other(p: Seq<char>, s: Seq<char>, t: Seq<char>, k: int)
    requires
        0 <= k < s.len(),
        k < t.len(),
        s[s.len() - 1 - k] != t[t.len() - 1 - k],
    ensures
        !ends_with_seq(p + s, t),
{
    let x = p + s;
    if ends_with_seq(x, t) {
        assert(x.skip(x.len() - t.len())[t.len() - 1 - k] == x[x.len() - 1 - k]);
        assert(x[x.len() - 1 - k] == s[s.len() - 1 - k]);
    }
}

/// Whatever comes before it, an action ending with `:refresh`, `:toggle`, `:configure`, `:create` gives that
/// action (`ticket_button_spec`).
pub proof fn lemma_ticket_button_suffixes(p: Seq<char>)
    ensures
        ticket_button_spec(p + ":refresh"@) == Some(MenuAction::Refresh),
        ticket_button_spec(p + ":toggle"@) == Some(MenuAction::Toggle),
        ticket_button_spec(p + ":configure"@) == Some(MenuAction::Configure),
        ticket_button_spec(p + ":create"@) == Some(MenuAction::Create),
{
    reveal_strlit(":refresh");
    reveal_strlit(":toggle");
    reveal_strlit(":configure");
    reveal_strlit(":create");
    lemma_ends_with_own(p, ":refresh"@);
    lemma_ends_with_own(p, ":toggle"@);
    assert(":toggle"@[6] != ":refresh"@[7]);
    lemma_ends_with_other(p, ":toggle"@, ":refresh"@, 0);
    lemma_ends_with_own(p, ":configure"@);
    assert(":configure"@[9] != ":refresh"@[7]);
    lemma_ends_with_other(p, ":configure"@, ":refresh"@, 0);
    assert(":configure"@[8] != ":toggle"@[5]);
    lemma_ends_with_other(p, ":configure"@, ":toggle"@, 1);
    lemma_ends_with_own(p, ":create"@);
    assert(":create"@[6] != ":refresh"@[7]);
    lemma_ends_with_other(p, ":create"@, ":refresh"@, 0);
    assert(":create"@[5] != ":toggle"@[5]);
    lemma_ends_with_other(p, ":create"@, ":toggle"@, 1);
    assert(":create"@[5] != ":configure"@[8]);
    lemma_ends_with_other(p, ":create"@, ":configure"@, 1);
}

/// Whatever comes before it, an action ending with `:configure`, `:create` gives that
/// action (`ticket_form_spec`).
pub proof fn lemma_ticket_form_suffixes(p: Seq<char>)
    ensures
        ticket_form_spec(p + ":configure"@) == Some(MenuAction::Configure),
        ticket_form_spec(p + ":create"@) == Some(MenuAction::Create),
{
    reveal_strlit(":configure");
    reveal_strlit(":create");
    lemma_ends_with_own(p, ":configure"@);
    lemma_ends_with_own(p, ":create"@);
    assert(":create"@[5] != ":configure"@[8]);
    lemma_ends_with_other(p, ":create"@, ":configure"@, 1);
}

/// Whatever comes before it, an action ending with `:configure`, `:toggle`, `:refresh` gives that
/// action (`tempvoc_button_spec`).
pub proof fn lemma_tempvoc_button_suffixes(p: Seq<char>)
    ensures
        tempvoc_button_spec(p + ":configure"@) == Some(MenuAction::Configure),
        tempvoc_button_spec(p + ":toggle"@) == Some(MenuAction::Toggle),
        tempvoc_button_spec(p + ":refresh"@) == Some(MenuAction::Refresh),
{
    reveal_strlit(":configure");
    reveal_strlit(":toggle");
    reveal_strlit(":refresh");
    lemma_ends_with_own(p, ":configure"@);
    lemma_ends_with_own(p, ":toggle"@);
    assert(":toggle"@[5] != ":configure"@[8]);
    lemma_ends_with_other(p, ":toggle"@, ":configure"@, 1);
    lemma_ends_with_own(p, ":refresh"@);
    assert(":refresh"@[7] != ":configure"@[9]);
    lemma_ends_with_other(p, ":refresh"@, ":configure"@, 0);
    assert(":refresh"@[7] != ":toggle"@[6]);
    lemma_ends_with_other(p, ":refresh"@, ":toggle"@, 0);
}

/// Whatever comes before it, an action ending with `:refresh`, `:toggle`, `:configure`, `:submit` gives that
/// action (`suggestion_button_spec`).
pub proof fn lemma_suggestion_button_suffixes(p: Seq<char>)
    ensures
        suggestion_button_spec(p + ":refresh"@) == Some(MenuAction::Refresh),
        suggestion_button_spec(p + ":toggle"@) == Some(MenuAction::Toggle),
        suggestion_button_spec(p + ":configure"@) == Some(MenuAction::Configure),
        suggestion_button_spec(p + ":submit"@) == Some(MenuAction::Submit),
{
    reveal_strlit(":refresh");
    reveal_strlit(":toggle");
    reveal_strlit(":configure");
    reveal_strlit(":submit");
    lemma_ends_with_own(p, ":refresh"@);
    lemma_ends_with_own(p, ":toggle"@);
    assert(":toggle"@[6] != ":refresh"@[7]);
    lemma_ends_with_other(p, ":toggle"@, ":refresh"@, 0);
    lemma_ends_with_own(p, ":configure"@);
    assert(":configure"@[9] != ":refresh"@[7]);
    lemma_ends_with_other(p, ":configure"@, ":refresh"@, 0);
    assert(":configure"@[8] != ":toggle"@[5]);
    lemma_ends_with_other(p, ":configure"@, ":toggle"@, 1);
    lemma_ends_with_own(p, ":submit"@);
    assert(":submit"@[6] != ":refresh"@[7]);
    lemma_ends_with_other(p, ":submit"@, ":refresh"@, 0);
    assert(":submit"@[6] != ":toggle"@[6]);
    lemma_ends_with_other(p, ":submit"@, ":toggle"@, 0);
    assert(":submit"@[6] != ":configure"@[9]);
    lemma_ends_with_other(p, ":submit"@, ":configure"@, 0);
}

/// Whatever comes before it, an action ending with `:configure`, `:submit` gives that
/// action (`suggestion_form_spec`).
pub proof fn lemma_suggestion_form_suffixes(p: Seq<char>)
    ensures
        suggestion_form_spec(p + ":configure"@) == Some(MenuAction::Configure),
        suggestion_form_spec(p + ":submit"@) == Some(MenuAction::Submit),
{
    reveal_strlit(":configure");
    reveal_strlit(":submit");
    lemma_ends_with_own(p, ":configure"@);
    lemma_ends_with_own(p, ":submit"@);
    assert(":submit"@[6] != ":configure"@[9]);
    lemma_ends_with_other(p, ":submit"@, ":configure"@, 0);
}

/// The action of a ticket-menu button.
pub fn ticket_button_action(action: &str) -> (r: Option<MenuAction>)
    ensures
        r == ticket_button_spec(action@),
{
    let v = chars_of(action);
    if ends_with_str(&v, ":refresh") {
        Some(MenuAction::Refresh)
    } else if ends_with_str(&v, ":toggle") {
        Some(MenuAction::Toggle)
    } else if ends_with_str(&v, ":configure") {
        Some(MenuAction::Configure)
    } else if ends_with_str(&v, ":create") {
        Some(MenuAction::Create)
    } else {
        None
    }
}

/// The action of a ticket-menu form.
pub fn ticket_form_action(action: &str) -> (r: Option<MenuAction>)
    ensures
        r == ticket_form_spec(action@),
{
    let v = chars_of(action);
    if ends_with_str(&v, ":configure") {
        Some(MenuAction::Configure)
    } else if ends_with_str(&v, ":create") {
        Some(MenuAction::Create)
    } else {
        None
    }
}

/// The action of a temporary-voice-menu button.
pub fn tempvoc_button_action(action: &str) -> (r: Option<MenuAction>)
    ensures
        r == tempvoc_button_spec(action@),
{
    let v = chars_of(action);
    if ends_with_str(&v, ":configure") {
        Some(MenuAction::Configure)
    } else if ends_with_str(&v, ":toggle") {
        Some(MenuAction::Toggle)
    } else if ends_with_str(&v, ":refresh") {
        Some(MenuAction::Refresh)
    } else {
        None
    }
}

/// Whether a temporary-voice-menu form is the configuration form: its
/// action holds `:configure` anywhere.
pub fn tempvoc_form_is_configure(action: &str) -> (r: bool)
    ensures
        r == contains_seq(action@, ":configure"@),
{
    let v = chars_of(action);
    crate::text::contains_str(&v, ":configure")
}

/// The action of a suggestion-menu button.
pub fn suggestion_button_action(action: &str) -> (r: Option<MenuAction>)
    ensures
        r == suggestion_button_spec(action@),
{
    let v = chars_of(action);
    if ends_with_str(&v, ":refresh") {
        Some(MenuAction::Refresh)
    } else if ends_with_str(&v, ":toggle") {
        Some(MenuAction::Toggle)
    } else if ends_with_str(&v, ":configure") {
        Some(MenuAction::Configure)
    } else if ends_with_str(&v, ":submit") {
        Some(MenuAction::Submit)
    } else {
        None
    }
}

/// The action of a suggestion-menu form.
pub fn suggestion_form_action(action: &str) -> (r: Option<MenuAction>)
    ensures
        r == suggestion_form_spec(action@),
{
    let v = chars_of(action);
    if ends_with_str(&v, ":configure") {
        Some(MenuAction::Configure)
    } else if ends_with_str(&v, ":submit") {
        Some(MenuAction::Submit)
    } else {
        None
    }
}

// ---------------------------------------------------------------------------
// What the menus show and read
// ---------------------------------------------------------------------------

/// A setting typed in a form: trimmed and read as a number, if it is one.
pub fn form_number(value: Option<&str>) -> (r: Option<i64>)
    ensures
        r == match value {
            Some(v) => parse_i64_spec(trim_seq(v@)),
            None => None,
        },
{
    match value {
        Some(v) => {
            let c = chars_of(v);
            let t = trim_chars(&c);
            parse_i64_chars(&t)
        },
        None => None,
    }
}

/// The status shown in a settings menu.
pub fn status_label(enabled: bool) -> (r: &'static str)
    ensures
        r@ == (if enabled {
            "Actif"@
        } else {
            "Inactif"@
        }),
{
    if enabled {
        "Actif"
    } else {
        "Inactif"
    }
}

/// The label of a menu's on/off button: what pressing it does.
pub fn toggle_label(enabled: bool) -> (r: &'static str)
    ensures
        r@ == (if enabled {
            "Désactiver"@
        } else {
            "Activer"@
        }),
{
    if enabled {
        "Désactiver"
    } else {
        "Activer"
    }
}

/// A mention `<#id>` of a channel.
pub fn channel_mention(id: i64) -> (r: String)
    ensures
        r@ == "<#"@ + signed_decimal(id as int) + ">"@,
{
    let mut v: Vec<char> = Vec::new();
    extend_str(&mut v, "<#");
    push_signed_decimal(&mut v, id);
    extend_str(&mut v, ">");
    string_of(&v)
}

/// The identifier of a settings-menu button: `<prefix>:<action>:<owner>`.
pub fn menu_button_id(prefix: &str, action: &str, owner_id: u64) -> (r: String)
    ensures
        r@ == crate::components::menu_component_id_text(prefix@, action@, owner_id),
{
    crate::components::menu_component_id(prefix, action, owner_id)
}

// ---------------------------------------------------------------------------
// Tickets
// ---------------------------------------------------------------------------

/// The name of a new ticket's channel: `ticket-` and the title made a
/// channel name; none when nothing of the title is left.
pub fn ticket_channel_name(title: &str) -> (r: Option<String>)
    ensures
        match r {
            Some(name) => sanitized_name(title@).len() > 0 && name@ == "ticket-"@ + sanitized_name(
                title@,
            ),
            None => sanitized_name(title@).len() == 0,
        },
{
    let clean = sanitize_channel_name(title);
    if clean.as_str().is_empty() {
        return None;
    }
    let mut v: Vec<char> = Vec::new();
    extend_str(&mut v, "ticket-");
    extend_str(&mut v, clean.as_str());
    Some(string_of(&v))
}

/// The permissions a member gets in a ticket: view the channel, send
/// messages, read the history, attach files, embed links, add reactions.
pub open spec fn ticket_member_bits() -> u64 {
    0x1CC40
}

/// The permissions everyone else loses in a ticket: view the channel,
/// send messages, read the history, attach files, embed links.
pub open spec fn ticket_hidden_bits() -> u64 {
    0x1CC00
}

/// `Permissions::VIEW_CHANNEL.bits()` of the chat library: bit 10.
#[verifier::external_body]
fn view_channel_bit() -> (r: u64)
    ensures
        r == 0x400,
{
    Permissions::VIEW_CHANNEL.bits()
}

/// `Permissions::SEND_MESSAGES.bits()` of the chat library: bit 11.
#[verifier::external_body]
fn send_messages_bit() -> (r: u64)
    ensures
        r == 0x800,
{
    Permissions::SEND_MESSAGES.bits()
}

/// `Permissions::EMBED_LINKS.bits()` of the chat library: bit 14.
#[verifier::external_body]
fn embed_links_bit() -> (r: u64)
    ensures
        r == 0x4000,
{
    Permissions::EMBED_LINKS.bits()
}

/// `Permissions::ATTACH_FILES.bits()` of the chat library: bit 15.
#[verifier::external_body]
fn attach_files_bit() -> (r: u64)
    ensures
        r == 0x8000,
{
    Permissions::ATTACH_FILES.bits()
}

/// `Permissions::READ_MESSAGE_HISTORY.bits()` of the chat library: bit 16.
#[verifier::external_body]
fn read_message_history_bit() -> (r: u64)
    ensures
        r == 0x10000,
{
    Permissions::READ_MESSAGE_HISTORY.bits()
}

/// `Permissions::ADD_REACTIONS.bits()` of the chat library: bit 6.
#[verifier::external_body]
fn add_reactions_bit() -> (r: u64)
    ensures
        r == 0x40,
{
    Permissions::ADD_REACTIONS.bits()
}

/// What everyone else loses in a ticket: view the channel, send messages,
/// read the history, attach files, embed links.
fn ticket_hidden_permissions() -> (r: u64)
    ensures
        r == ticket_hidden_bits(),
{
    let r = view_channel_bit() | send_messages_bit() | read_message_history_bit()
        | attach_files_bit() | embed_links_bit();
    assert(0x400u64 | 0x800u64 | 0x10000u64 | 0x8000u64 | 0x4000u64 == 0x1CC00u64) by (bit_vector);
    r
}

/// What a member gets in a ticket: what everyone else loses, and adding
/// reactions.
fn ticket_member_permissions() -> (r: u64)
    ensures
        r == ticket_member_bits(),
{
    let r = ticket_hidden_permissions() | add_reactions_bit();
    assert(0x1CC00u64 | 0x40u64 == 0x1CC40u64) by (bit_vector);
    r
}

/// The overwrites a new ticket is created with: the server's everyone
/// role (whose id is the server's) loses the ticket permissions, and the
/// member who opened it gets them.
pub fn ticket_creation_overwrites(guild_id: u64, creator: u64) -> (r: Vec<Overwrite>)
    ensures
        r@ == seq![
            Overwrite { allow: 0, deny: ticket_hidden_bits(), target: OverwriteTarget::Role(guild_id) },
            Overwrite {
                allow: ticket_member_bits(),
                deny: 0,
                target: OverwriteTarget::Member(creator),
            },
        ],
{
    let mut v: Vec<Overwrite> = Vec::new();
    v.push(
        Overwrite {
            allow: 0,
            deny: ticket_hidden_permissions(),
            target: OverwriteTarget::Role(guild_id),
        },
    );
    v.push(
        Overwrite {
            allow: ticket_member_permissions(),
            deny: 0,
            target: OverwriteTarget::Member(creator),
        },
    );
    assert(v@ =~= seq![
        Overwrite { allow: 0, deny: ticket_hidden_bits(), target: OverwriteTarget::Role(guild_id) },
        Overwrite {
            allow: ticket_member_bits(),
            deny: 0,
            target: OverwriteTarget::Member(creator),
        },
    ]);
    v
}

/// The member a ticket command is about: the first member the message
/// mentions, else the first argument read as a member.
pub fn ticket_member_id(first_mention: Option<u64>, args: &[&str]) -> (r: Option<u64>)
    ensures
        r == match first_mention {
            Some(m) => Some(m),
            None => if args@.len() > 0 {
                parse_u64_spec(mention_body(args@[0]@))
            } else {
                None
            },
        },
{
    match first_mention {
        Some(m) => Some(m),
        None => {
            if args.len() > 0 {
                parse_user_id(args[0])
            } else {
                None
            }
        },
    }
}

/// The overwrites without those of member `user`, in order.
pub open spec fn without_member(s: Seq<Overwrite>, user: u64) -> Seq<Overwrite>
    decreases s.len(),
{
    if s.len() == 0 {
        Seq::empty()
    } else {
        let prev = without_member(s.drop_last(), user);
        if s.last().target == OverwriteTarget::Member(user) {
            prev
        } else {
            prev.push(s.last())
        }
    }
}

/// A ticket's overwrites once a member is added (their overwrites replaced
/// by one that gives the ticket permissions) or removed (their overwrites
/// dropped); the others stay, in order.
pub open spec fn ticket_member_spec(current: Seq<Overwrite>, user: u64, add: bool) -> Seq<
    Overwrite,
> {
    if add {
        without_member(current, user).push(
            Overwrite {
                allow: ticket_member_bits(),
                deny: 0,
                target: OverwriteTarget::Member(user),
            },
        )
    } else {
        without_member(current, user)
    }
}

/// The overwrites of a ticket once member `user` is added or removed.
pub fn ticket_member_overwrites(current: &Vec<Overwrite>, user: u64, add: bool) -> (r: Vec<
    Overwrite,
>)
    ensures
        r@ == ticket_member_spec(current@, user, add),
{
    let mut out: Vec<Overwrite> = Vec::new();
    let mut i: usize = 0;
    while i < current.len()
        invariant
            i <= current.len(),
            out@ == without_member(current@.take(i as int), user),
        decreases current.len() - i,
    {
        assert(current@.take(i + 1).drop_last() =~= current@.take(i as int));
        let ow = current[i];
        if ow.target != OverwriteTarget::Member(user) {
            out.push(ow);
        }
        i += 1;
    }
    assert(current@.take(current.len() as int) =~= current@);
    if add {
        out.push(
            Overwrite {
                allow: ticket_member_permissions(),
                deny: 0,
                target: OverwriteTarget::Member(user),
            },
        );
    }
    out
}

proof fn lemma_without_member(s: Seq<Overwrite>, user: u64)
    ensures
        forall|i: int|
            0 <= i < without_member(s, user).len() ==> (#[trigger] without_member(s, user)[i]).target
                != OverwriteTarget::Member(user),
        forall|o: Overwrite|
            #![trigger s.contains(o)]
            #![trigger without_member(s, user).contains(o)]
            o.target != OverwriteTarget::Member(user) ==> (s.contains(o) <==> without_member(
                s,
                user,
            ).contains(o)),
    decreases s.len(),
{
    if s.len() > 0 {
        lemma_without_member(s.drop_last(), user);
        let prev = without_member(s.drop_last(), user);
        let w = without_member(s, user);
        if s.last().target != OverwriteTarget::Member(user) {
            assert(w == prev.push(s.last()));
            assert forall|i: int| 0 <= i < w.len() implies (#[trigger] w[i]).target
                != OverwriteTarget::Member(user) by {
                if i < prev.len() {
                    assert(w[i] == prev[i]);
                }
            }
        }
        assert forall|o: Overwrite| o.target != OverwriteTarget::Member(user) implies (s.contains(o)
            <==> w.contains(o)) by {
            if s.contains(o) {
                let k = choose|k: int| 0 <= k < s.len() && s[k] == o;
                if k < s.len() - 1 {
                    assert(s.drop_last()[k] == o);
                    assert(s.drop_last().contains(o));
                    let m = choose|m: int| 0 <= m < prev.len() && prev[m] == o;
                    if s.last().target != OverwriteTarget::Member(user) {
                        assert(w[m] == o);
                    }
                } else {
                    assert(w[w.len() - 1] == o);
                }
            }
            if w.contains(o) {
                let k = choose|k: int| 0 <= k < w.len() && w[k] == o;
                if k < prev.len() {
                    assert(prev[k] == o);
                    assert(prev.contains(o));
                    assert(s.drop_last().contains(o));
                    let m = choose|m: int| 0 <= m < s.drop_last().len() && s.drop_last()[m] == o;
                    assert(s[m] == o);
                } else {
                    assert(s[s.len() - 1] == o);
                }
            }
        }
    }
}

/// Adding a member to a ticket leaves them exactly one overwrite, the
/// last, giving the ticket permissions; removing them leaves none; every
/// overwrite of anyone else is kept.
pub proof fn lemma_ticket_member_update(current: Seq<Overwrite>, user: u64, add: bool)
    ensures
        forall|i: int|
            0 <= i < ticket_member_spec(current, user, add).len() && (#[trigger] ticket_member_spec(
                current,
                user,
                add,
            )[i]).target == OverwriteTarget::Member(user) ==> add && i == ticket_member_spec(
                current,
                user,
                add,
            ).len() - 1,
        add ==> ticket_member_spec(current, user, add).last() == (Overwrite {
            allow: ticket_member_bits(),
            deny: 0,
            target: OverwriteTarget::Member(user),
        }),
        forall|o: Overwrite|
            o.target != OverwriteTarget::Member(user) ==> (current.contains(o)
                <==> #[trigger] ticket_member_spec(current, user, add).contains(o)),
{
    lemma_without_member(current, user);
    let w = without_member(current, user);
    let r = ticket_member_spec(current, user, add);
    assert forall|i: int| 0 <= i < r.len() && (#[trigger] r[i]).target == OverwriteTarget::Member(
        user,
    ) implies add && i == r.len() - 1 by {
        if i < w.len() {
            assert(r[i] == w[i]);
        }
    }
    assert forall|o: Overwrite| o.target != OverwriteTarget::Member(user) implies (current.contains(
        o,
    ) <==> #[trigger] r.contains(o)) by {
        if add {
            if r.contains(o) {
                let k = choose|k: int| 0 <= k < r.len() && r[k] == o;
                if k < w.len() {
                    assert(w[k] == o);
                }
            }
            if w.contains(o) {
                let k = choose|k: int| 0 <= k < w.len() && w[k] == o;
                assert(r[k] == o);
            }
        }
    }
}

/// The answer once a member is added to or removed from a ticket.
pub fn ticket_member_text(user: u64, add: bool) -> (r: String)
    ensures
        r@ == "<@"@ + decimal(user as nat) + (if add {
            "> a été ajouté au ticket."@
        } else {
            "> a été retiré du ticket."@
        }),
{
    let mut v: Vec<char> = Vec::new();
    extend_str(&mut v, "<@");
    push_decimal(&mut v, user);
    if add {
        extend_str(&mut v, "> a été ajouté au ticket.");
    } else {
        extend_str(&mut v, "> a été retiré du ticket.");
    }
    string_of(&v)
}

/// The title typed in the ticket form, trimmed; none when it is empty.
pub fn ticket_form_title(title: Option<&str>) -> (r: Option<String>)
    ensures
        match r {
            Some(t) => t@.len() > 0 && t@ == trim_seq(
                match title {
                    Some(x) => x@,
                    None => Seq::empty(),
                },
            ),
            None => trim_seq(
                match title {
                    Some(x) => x@,
                    None => Seq::empty(),
                },
            ).len() == 0,
        },
{
    let v = match title {
        Some(x) => chars_of(x),
        None => Vec::new(),
    };
    let t = trim_chars(&v);
    if t.len() == 0 {
        None
    } else {
        Some(string_of(&t))
    }
}

// ---------------------------------------------------------------------------
// Temporary voice channels
// ---------------------------------------------------------------------------

/// The name of a member's temporary voice channel: a microphone and their
/// name made a channel name; none when nothing of the name is left.
pub fn temp_room_name(user_name: &str) -> (r: Option<String>)
    ensures
        match r {
            Some(name) => sanitized_name(user_name@).len() > 0 && name@ == "🎤 "@ + sanitized_name(
                user_name@,
            ),
            None => sanitized_name(user_name@).len() == 0,
        },
{
    let clean = sanitize_voice_name(user_name);
    if clean.as_str().is_empty() {
        return None;
    }
    let mut v: Vec<char> = Vec::new();
    extend_str(&mut v, "🎤 ");
    extend_str(&mut v, clean.as_str());
    Some(string_of(&v))
}

/// The category of a new temporary voice channel: the configured one,
/// else the trigger channel's.
pub fn temp_room_category(configured: Option<i64>, trigger_parent: Option<u64>) -> (r: Option<
    u64,
>)
    ensures
        r == match configured {
            Some(c) => Some(c as u64),
            None => trigger_parent,
        },
{
    match configured {
        Some(c) => Some(c as u64),
        None => trigger_parent,
    }
}

/// Whether joining voice channel `joined` opens a temporary channel: the
/// feature is on and it is the trigger channel.
pub fn tempvoc_opens_room(enabled: bool, trigger: Option<i64>, joined: Option<u64>) -> (r: bool)
    ensures
        r == (enabled && match (trigger, joined) {
            (Some(t), Some(j)) => j as i64 == t,
            _ => false,
        }),
{
    if !enabled {
        return false;
    }
    match (trigger, joined) {
        (Some(t), Some(j)) => j as i64 == t,
        _ => false,
    }
}

/// Whether the channel a member left is closed: it is a temporary channel
/// and nobody is left in it.
pub fn tempvoc_closes_room(is_temp_room: bool, members_left: usize) -> (r: bool)
    ensures
        r == (is_temp_room && members_left == 0),
{
    is_temp_room && members_left == 0
}

// ---------------------------------------------------------------------------
// Suggestions
// ---------------------------------------------------------------------------

/// What a `suggestion` command asks for.
#[derive(Debug, PartialEq, Eq)]
pub enum SuggestionRequest {
    /// `settings`: show the menu.
    Settings,
    /// No argument.
    Usage,
    /// Publish this suggestion.
    Submit(String),
    /// Only spaces: nothing is done.
    Ignore,
}

/// How a `suggestion` command is read: `settings` (in any ASCII case), or
/// the suggestion itself, its arguments joined by spaces.
pub open spec fn suggestion_request_spec(args: Seq<&str>, r: SuggestionRequest) -> bool {
    if args.len() > 0 && crate::text::eq_ignore_ascii_case_seq(args[0]@, "settings"@) {
        r is Settings
    } else if args.len() == 0 {
        r is Usage
    } else if trim_seq(join_seq(str_views(args), " "@)).len() == 0 {
        r is Ignore
    } else {
        r matches SuggestionRequest::Submit(c) && c@ == join_seq(str_views(args), " "@)
    }
}

/// `suggestion settings` (any ASCII case) shows the menu; with no argument
/// the usage shows; otherwise the arguments joined by spaces are the
/// suggestion, unless they are only spaces.
pub proof fn lemma_suggestion_request_words(args: Seq<&str>, r: SuggestionRequest)
    requires
        suggestion_request_spec(args, r),
    ensures
        args.len() > 0 && crate::text::eq_ignore_ascii_case_seq(args[0]@, "settings"@) ==> r is Settings,
        args.len() == 0 ==> r is Usage,
        args.len() > 0 && !crate::text::eq_ignore_ascii_case_seq(args[0]@, "settings"@) && trim_seq(
            join_seq(str_views(args), " "@),
        ).len() > 0 ==> (r matches SuggestionRequest::Submit(c) && c@ == join_seq(
            str_views(args),
            " "@,
        )),
        args.len() > 0 && !crate::text::eq_ignore_ascii_case_seq(args[0]@, "settings"@) && trim_seq(
            join_seq(str_views(args), " "@),
        ).len() == 0 ==> r is Ignore,
{
}

/// Reads the arguments of a `suggestion` command.
pub fn suggestion_request(args: &[&str]) -> (r: SuggestionRequest)
    ensures
        suggestion_request_spec(args@, r),
{
    if args.len() > 0 && crate::text::eq_ignore_ascii_case(args[0], "settings") {
        return SuggestionRequest::Settings;
    }
    if args.len() == 0 {
        return SuggestionRequest::Usage;
    }
    let content = join_args(args, 0, " ");
    assert(args@.skip(0) =~= args@);
    let v = chars_of(content.as_str());
    let t = trim_chars(&v);
    if t.len() == 0 {
        SuggestionRequest::Ignore
    } else {
        SuggestionRequest::Submit(content)
    }
}

/// Why a suggestion cannot be published.
#[derive(Clone, Copy, Debug, PartialEq, Eq, Structural)]
pub enum SuggestionError {
    /// Suggestions are switched off.
    Disabled,
    /// No channel is configured for them.
    NoChannel,
}

/// Where a suggestion is published: the configured channel, when
/// suggestions are on.
pub fn suggestion_channel(enabled: bool, channel: Option<i64>) -> (r: Result<i64, SuggestionError>)
    ensures
        !enabled ==> r == Err::<i64, SuggestionError>(SuggestionError::Disabled),
        enabled ==> r == match channel {
            Some(c) => Ok::<i64, SuggestionError>(c),
            None => Err(SuggestionError::NoChannel),
        },
{
    if !enabled {
        return Err(SuggestionError::Disabled);
    }
    match channel {
        Some(c) => Ok(c),
        None => Err(SuggestionError::NoChannel),
    }
}

/// What the member is told when a suggestion cannot be published.
pub fn suggestion_error_text(e: SuggestionError) -> (r: &'static str)
    ensures
        r@ == match e {
            SuggestionError::Disabled => "Le système de suggestions est désactivé."@,
            SuggestionError::NoChannel => "Canal de suggestions non configuré"@,
        },
{
    match e {
        SuggestionError::Disabled => "Le système de suggestions est désactivé.",
        SuggestionError::NoChannel => "Canal de suggestions non configuré",
    }
}

/// The channels with automatic publishing, but the suggestion channel.
pub open spec fn mirror_spec(channels: Seq<i64>, suggestion_channel: i64) -> Seq<i64>
    decreases channels.len(),
{
    if channels.len() == 0 {
        Seq::empty()
    } else {
        let prev = mirror_spec(channels.drop_last(), suggestion_channel);
        if channels.last() == suggestion_channel {
            prev
        } else {
            prev.push(channels.last())
        }
    }
}

/// The channels a published suggestion is copied to: those with automatic
/// publishing, but the suggestion channel itself.
pub fn suggestion_mirrors(autopublish: &Vec<i64>, suggestion_channel: i64) -> (r: Vec<i64>)
    ensures
        r@ == mirror_spec(autopublish@, suggestion_channel),
{
    let mut out: Vec<i64> = Vec::new();
    let mut i: usize = 0;
    while i < autopublish.len()
        invariant
            i <= autopublish.len(),
            out@ == mirror_spec(autopublish@.take(i as int), suggestion_channel),
        decreases autopublish.len() - i,
    {
        assert(autopublish@.take(i + 1).drop_last() =~= autopublish@.take(i as int));
        if autopublish[i] != suggestion_channel {
            out.push(autopublish[i]);
        }
        i += 1;
    }
    assert(autopublish@.take(autopublish.len() as int) =~= autopublish@);
    out
}

/// Whether a channel is not the suggestion channel.
pub open spec fn not_channel(suggestion_channel: i64) -> spec_fn(i64) -> bool {
    |c: i64| c != suggestion_channel
}

/// The mirror channels are exactly the autopublish channels other than the
/// suggestion channel, in their order: every other channel is kept, and
/// only the suggestion channel is dropped.
pub proof fn lemma_suggestion_mirrors(channels: Seq<i64>, suggestion_channel: i64)
    ensures
        mirror_spec(channels, suggestion_channel) == channels.filter(not_channel(suggestion_channel)),
        forall|c: i64|
            #[trigger] mirror_spec(channels, suggestion_channel).contains(c) <==> (
            channels.contains(c) && c != suggestion_channel),
    decreases channels.len(),
{
    let f = not_channel(suggestion_channel);
    reveal(Seq::filter);
    if channels.len() > 0 {
        lemma_suggestion_mirrors(channels.drop_last(), suggestion_channel);
        let sub = channels.drop_last().filter(f);
        assert(f(channels.last()) == (channels.last() != suggestion_channel));
        assert(channels.filter(f) == (if f(channels.last()) {
            sub.push(channels.last())
        } else {
            sub
        }));
    } else {
        assert(channels.filter(f) == channels);
        assert(mirror_spec(channels, suggestion_channel) =~= channels);
    }
    assert(mirror_spec(channels, suggestion_channel) == channels.filter(f));
    assert forall|c: i64| #[trigger] channels.filter(f).contains(c) <==> (channels.contains(c)
        && c != suggestion_channel) by {
        if channels.filter(f).contains(c) {
            let k = choose|k: int| 0 <= k < channels.filter(f).len() && channels.filter(f)[k] == c;
            channels.lemma_filter_pred(f, k);
            channels.lemma_filter_contains_rev(f, c);
        }
        if channels.contains(c) && c != suggestion_channel {
            let k = choose|k: int| 0 <= k < channels.len() && channels[k] == c;
            channels.lemma_filter_contains(f, k);
        }
    }
}

/// The suggestion typed in the form, as typed; none when it is only
/// spaces.
pub fn suggestion_form_content(content: Option<&str>) -> (r: Option<String>)
    ensures
        match r {
            Some(c) => trim_seq(c@).len() > 0 && c@ == match content {
                Some(x) => x@,
                None => Seq::empty(),
            },
            None => trim_seq(
                match content {
                    Some(x) => x@,
                    None => Seq::empty(),
                },
            ).len() == 0,
        },
{
    let v = match content {
        Some(x) => chars_of(x),
        None => Vec::new(),
    };
    let t = trim_chars(&v);
    if t.len() == 0 {
        None
    } else {
        Some(string_of(&v))
    }
}

} // verus!
