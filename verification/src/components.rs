//! Identifiers of the buttons and forms the bot sends, and how an
//! interaction is routed back from its identifier: the owner encoded in the
//! identifier, the action it names, and the values a submitted form holds.
use vstd::prelude::*;

use crate::text::{
    chars_are, chars_of, decimal, extend_str, lemma_parse_i64_signed_decimal,
    lemma_parse_u64_decimal, parse_i64_chars, parse_i64_spec, parse_u64_chars, parse_u64_spec,
    push_decimal, push_signed_decimal, signed_decimal, slice_chars, split_chars, split_seq,
    string_of, strip_end, strip_end_chars, strip_start, strip_start_chars, trim_chars, trim_seq,
    views_of,
};

verus! {

// ---------------------------------------------------------------------------
// Owner-bound identifiers
// ---------------------------------------------------------------------------

/// The position of the last `:` of `s`, if any.
pub open spec fn last_colon(s: Seq<char>) -> Option<int> {
    if exists|k: int| 0 <= k < s.len() && s[k] == ':' {
        Some(
            choose|k: int|
                0 <= k < s.len() && s[k] == ':' && forall|j: int| k < j < s.len() ==> s[j] != ':',
        )
    } else {
        None
    }
}

/// An identifier `<action>:<owner>` split at its last `:`: the action, and
/// the owner read as a number.
pub open spec fn owner_split(s: Seq<char>) -> Option<(Seq<char>, u64)> {
    match last_colon(s) {
        Some(k) => match parse_u64_spec(s.skip(k + 1)) {
            Some(owner) => Some((s.take(k), owner)),
            None => None,
        },
        None => None,
    }
}

/// The identifier of a button that only `owner` may use.
pub open spec fn owner_id_text(action: Seq<char>, owner: u64) -> Seq<char> {
    action + seq![':'] + decimal(owner as nat)
}

proof fn lemma_last_colon_is(s: Seq<char>, k: int)
    requires
        0 <= k < s.len(),
        s[k] == ':',
        forall|j: int| k < j < s.len() ==> s[j] != ':',
    ensures
        last_colon(s) == Some(k),
{
    let c = choose|c: int|
        0 <= c < s.len() && s[c] == ':' && forall|j: int| c < j < s.len() ==> s[j] != ':';
    if c < k {
        assert(s[k] != ':');
    } else if c > k {
        assert(s[c] != ':');
    }
}

/// Finds the last `:` of `v`.
fn find_last_colon(v: &Vec<char>) -> (r: Option<usize>)
    ensures
        match r {
            Some(k) => k < v.len() && last_colon(v@) == Some(k as int),
            None => last_colon(v@) is None,
        },
{
    let mut k: usize = v.len();
    while k > 0
        invariant
            k <= v.len(),
            forall|j: int| k <= j < v.len() ==> v@[j] != ':',
        decreases k,
    {
        if v[k - 1] == ':' {
            proof {
                lemma_last_colon_is(v@, k - 1);
            }
            return Some(k - 1);
        }
        k -= 1;
    }
    None
}

/// The action and the owner of an owner-bound identifier, as the menus of
/// the suggestion, temporary voice and ticket settings read them.
pub fn parse_owner_id(custom_id: &str) -> (r: Option<(String, u64)>)
    ensures
        match r {
            Some((action, owner)) => owner_split(custom_id@) == Some((action@, owner)),
            None => owner_split(custom_id@) is None,
        },
{
    let v = chars_of(custom_id);
    let k = match find_last_colon(&v) {
        Some(k) => k,
        None => return None,
    };
    let tail = slice_chars(&v, k + 1, v.len());
    assert(tail@ =~= v@.skip(k + 1));
    let owner = match parse_u64_chars(&tail) {
        Some(o) => o,
        None => return None,
    };
    let head = slice_chars(&v, 0, k);
    assert(head@ =~= v@.take(k as int));
    Some((string_of(&head), owner))
}

/// The action and the owner of an identifier of the advanced tools; the
/// action is the part of the identifier before its last `:`.
pub fn parse_owner_component_id(custom_id: &str) -> (r: Option<(&str, u64)>)
    ensures
        match r {
            Some((action, owner)) => owner_split(custom_id@) == Some((action@, owner)),
            None => owner_split(custom_id@) is None,
        },
{
    let v = chars_of(custom_id);
    let k = match find_last_colon(&v) {
        Some(k) => k,
        None => return None,
    };
    let tail = slice_chars(&v, k + 1, v.len());
    assert(tail@ =~= v@.skip(k + 1));
    let owner = match parse_u64_chars(&tail) {
        Some(o) => o,
        None => return None,
    };
    let action = custom_id.substring_char(0, k);
    assert(action@ =~= v@.take(k as int));
    Some((action, owner))
}

/// The identifier of a button of the advanced tools that only `owner` may
/// use: the action, `:`, and the owner.
pub fn adv_component_id(action: &str, owner_id: u64) -> (r: String)
    ensures
        r@ == owner_id_text(action@, owner_id),
{
    let mut v: Vec<char> = Vec::new();
    extend_str(&mut v, action);
    v.push(':');
    push_decimal(&mut v, owner_id);
    assert(v@ =~= owner_id_text(action@, owner_id));
    string_of(&v)
}

/// The identifier of a settings-menu button: the menu, the action and the
/// owner, separated by `:`.
pub open spec fn menu_component_id_text(menu: Seq<char>, action: Seq<char>, owner: u64) -> Seq<
    char,
> {
    owner_id_text(menu + seq![':'] + action, owner)
}

/// The identifier of a settings-menu button that only `owner` may use.
pub fn menu_component_id(menu: &str, action: &str, owner_id: u64) -> (r: String)
    ensures
        r@ == menu_component_id_text(menu@, action@, owner_id),
{
    let mut v: Vec<char> = Vec::new();
    extend_str(&mut v, menu);
    v.push(':');
    extend_str(&mut v, action);
    v.push(':');
    push_decimal(&mut v, owner_id);
    assert(v@ =~= menu_component_id_text(menu@, action@, owner_id));
    string_of(&v)
}

/// Reading back an owner-bound identifier gives its action and its owner,
/// whatever the action holds (`:` included).
pub proof fn lemma_owner_id_round_trip(action: Seq<char>, owner: u64)
    ensures
        owner_split(owner_id_text(action, owner)) == Some((action, owner)),
{
    let s = owner_id_text(action, owner);
    let k = action.len() as int;
    let d = decimal(owner as nat);
    crate::text::lemma_decimal_all_digits(owner as nat);
    assert(s[k] == ':');
    assert forall|j: int| k < j < s.len() implies s[j] != ':' by {
        assert(s[j] == d[j - k - 1]);
        assert(crate::text::is_digit(d[j - k - 1]));
    }
    lemma_last_colon_is(s, k);
    assert(s.skip(k + 1) =~= d);
    assert(s.take(k) =~= action);
    lemma_parse_u64_decimal(owner);
}

/// Reading back a settings-menu identifier gives the menu and action, and
/// the owner.
pub proof fn lemma_menu_id_round_trip(menu: Seq<char>, action: Seq<char>, owner: u64)
    ensures
        owner_split(menu_component_id_text(menu, action, owner)) == Some(
            (menu + seq![':'] + action, owner),
        ),
{
    lemma_owner_id_round_trip(menu + seq![':'] + action, owner);
}

// ---------------------------------------------------------------------------
// Pages of sent private messages
// ---------------------------------------------------------------------------

/// The identifier of a page button of the sent-messages list.
pub open spec fn mp_sent_id_text(owner: u64, page: i64) -> Seq<char> {
    "mpsent:"@ + decimal(owner as nat) + seq![':'] + signed_decimal(page as int)
}

/// The owner and page of a page button: exactly three `:`-separated parts,
/// the first `mpsent`.
pub open spec fn mp_sent_split(s: Seq<char>) -> Option<(u64, i64)> {
    let parts = split_seq(s, ':');
    if parts.len() != 3 || parts[0] != "mpsent"@ {
        None
    } else {
        match parse_u64_spec(parts[1]) {
            None => None,
            Some(owner) => match parse_i64_spec(parts[2]) {
                None => None,
                Some(page) => Some((owner, page)),
            },
        }
    }
}

/// Writes the identifier of a page button of the sent-messages list.
pub fn mp_sent_custom_id(owner: u64, page: i64) -> (r: String)
    ensures
        r@ == mp_sent_id_text(owner, page),
{
    let mut v: Vec<char> = Vec::new();
    extend_str(&mut v, "mpsent:");
    push_decimal(&mut v, owner);
    v.push(':');
    push_signed_decimal(&mut v, page);
    assert(v@ =~= mp_sent_id_text(owner, page));
    string_of(&v)
}

/// Reads the owner and page of a page button.
pub fn parse_mp_sent_custom_id(custom_id: &str) -> (r: Option<(u64, i64)>)
    ensures
        r == mp_sent_split(custom_id@),
{
    let v = chars_of(custom_id);
    let parts = split_chars(&v, ':');
    proof {
        assert(views_of(parts@)[0] == parts@[0]@);
    }
    if parts.len() != 3 || !chars_are(&parts[0], "mpsent") {
        return None;
    }
    assert(views_of(parts@)[1] == parts@[1]@);
    assert(views_of(parts@)[2] == parts@[2]@);
    let owner = match parse_u64_chars(&parts[1]) {
        Some(o) => o,
        None => return None,
    };
    let page = match parse_i64_chars(&parts[2]) {
        Some(p) => p,
        None => return None,
    };
    Some((owner, page))
}

/// What a page of a list shows: the page (moved into range), the number
/// of pages (at least one), the first entry's offset, the pages the two
/// buttons lead to, and whether each button is off.
#[derive(Clone, Copy, Debug, PartialEq, Eq)]
pub struct PageView {
    pub total_pages: i64,
    pub page: i64,
    pub offset: i64,
    pub prev_page: i64,
    pub next_page: i64,
    pub prev_disabled: bool,
    pub next_disabled: bool,
}

/// Lays out the page `page` of a list of `total` entries (a negative count
/// counts as none), ten entries per page.
pub fn mp_sent_page(total: i64, page: i64) -> (v: PageView)
    requires
        total <= i64::MAX - 9,
    ensures
        ({
            let t: int = if total < 0 {
                0
            } else {
                total as int
            };
            let pages: int = if (t + 9) / 10 < 1 {
                1
            } else {
                (t + 9) / 10
            };
            let p: int = if page < 1 {
                1
            } else if page > pages {
                pages
            } else {
                page as int
            };
            &&& v.total_pages == pages
            &&& v.page == p
            &&& v.offset == (p - 1) * 10
            &&& v.prev_page == (if p > 1 {
                p - 1
            } else {
                1
            })
            &&& v.next_page == (if p < pages {
                p + 1
            } else {
                pages
            })
            &&& v.prev_disabled == (p <= 1)
            &&& v.next_disabled == (p >= pages)
        }),
        1 <= v.page <= v.total_pages,
        1 <= v.prev_page <= v.total_pages,
        1 <= v.next_page <= v.total_pages,
        v.offset >= 0,
{
    let t: i64 = if total < 0 {
        0
    } else {
        total
    };
    let q = (t + 9) / 10;
    let pages: i64 = if q < 1 {
        1
    } else {
        q
    };
    let p: i64 = if page < 1 {
        1
    } else if page > pages {
        pages
    } else {
        page
    };
    let offset = (p - 1) * 10;
    let prev_page = if p > 1 {
        p - 1
    } else {
        1
    };
    let next_page = if p < pages {
        p + 1
    } else {
        pages
    };
    PageView {
        total_pages: pages,
        page: p,
        offset,
        prev_page,
        next_page,
        prev_disabled: p <= 1,
        next_disabled: p >= pages,
    }
}

/// The page a `sent` request asks for: the argument when it is a number of
/// at least one, the first page otherwise.
pub fn requested_page(arg: Option<&str>) -> (r: i64)
    ensures
        r == match arg {
            Some(a) => match parse_i64_spec(a@) {
                Some(p) => if p >= 1 {
                    p
                } else {
                    1
                },
                None => 1,
            },
            None => 1,
        },
        r >= 1,
{
    match arg {
        Some(a) => {
            let v = chars_of(a);
            match parse_i64_chars(&v) {
                Some(p) => if p >= 1 {
                    p
                } else {
                    1
                },
                None => 1,
            }
        },
        None => 1,
    }
}

/// Reading back a page button's identifier gives its owner and page.
pub proof fn lemma_mp_sent_round_trip(owner: u64, page: i64)
    ensures
        mp_sent_split(mp_sent_id_text(owner, page)) == Some((owner, page)),
{
    let s = mp_sent_id_text(owner, page);
    let d = decimal(owner as nat);
    let e = signed_decimal(page as int);
    reveal_strlit("mpsent:");
    reveal_strlit("mpsent");
    crate::text::lemma_decimal_all_digits(owner as nat);
    lemma_no_colon_in_signed_decimal(page as int);
    lemma_split_three(seq!['m', 'p', 's', 'e', 'n', 't'], d, e);
    assert(s =~= seq!['m', 'p', 's', 'e', 'n', 't'] + seq![':'] + d + seq![':'] + e);
    assert("mpsent"@ =~= seq!['m', 'p', 's', 'e', 'n', 't']);
    lemma_parse_u64_decimal(owner);
    lemma_parse_i64_signed_decimal(page);
}

proof fn lemma_no_colon_in_signed_decimal(n: int)
    ensures
        forall|i: int|
            0 <= i < signed_decimal(n).len() ==> #[trigger] signed_decimal(n)[i] != ':',
{
    if n < 0 {
        crate::text::lemma_decimal_all_digits((-n) as nat);
        let s = signed_decimal(n);
        let d = decimal((-n) as nat);
        assert forall|i: int| 0 <= i < s.len() implies #[trigger] s[i] != ':' by {
            if i > 0 {
                assert(s[i] == d[i - 1]);
                assert(crate::text::is_digit(d[i - 1]));
            }
        }
    } else {
        crate::text::lemma_decimal_all_digits(n as nat);
        let d = decimal(n as nat);
        assert forall|i: int| 0 <= i < d.len() implies #[trigger] d[i] != ':' by {
            assert(crate::text::is_digit(d[i]));
        }
    }
}

proof fn lemma_split_no_sep(s: Seq<char>, sep: char)
    requires
        forall|i: int| 0 <= i < s.len() ==> s[i] != sep,
    ensures
        split_seq(s, sep) == seq![s],
    decreases s.len(),
{
    if s.len() > 0 {
        lemma_split_no_sep(s.drop_last(), sep);
        assert(s.drop_last().push(s.last()) =~= s);
        assert(seq![s.drop_last()].update(0, s.drop_last().push(s.last())) =~= seq![s]);
    } else {
        assert(s =~= Seq::<char>::empty());
    }
}

proof fn lemma_split_append(a: Seq<char>, b: Seq<char>, sep: char)
    requires
        forall|i: int| 0 <= i < b.len() ==> b[i] != sep,
    ensures
        split_seq(a + seq![sep] + b, sep) == split_seq(a, sep).push(b),
    decreases b.len(),
{
    let s = a + seq![sep] + b;
    if b.len() == 0 {
        assert(s.drop_last() =~= a);
        assert(b =~= Seq::<char>::empty());
    } else {
        lemma_split_append(a, b.drop_last(), sep);
        assert(s.drop_last() =~= a + seq![sep] + b.drop_last());
        assert(s.last() == b.last());
        crate::text::lemma_split_nonempty(a, sep);
        assert(b.drop_last().push(b.last()) =~= b);
        assert(split_seq(a, sep).push(b.drop_last()).update(
            split_seq(a, sep).len() as int,
            b.drop_last().push(b.last()),
        ) =~= split_seq(a, sep).push(b));
        assert(b.drop_last().push(b.last()) =~= b);
    }
}

proof fn lemma_split_three(a: Seq<char>, d: Seq<char>, e: Seq<char>)
    requires
        forall|i: int| 0 <= i < a.len() ==> a[i] != ':',
        forall|i: int| 0 <= i < d.len() ==> crate::text::is_digit(#[trigger] d[i]),
        forall|i: int| 0 <= i < e.len() ==> #[trigger] e[i] != ':',
    ensures
        split_seq(a + seq![':'] + d + seq![':'] + e, ':') == seq![a, d, e],
{
    assert forall|i: int| 0 <= i < d.len() implies d[i] != ':' by {
        assert(crate::text::is_digit(d[i]));
    }
    lemma_split_no_sep(a, ':');
    lemma_split_append(a, d, ':');
    lemma_split_append(a + seq![':'] + d, e, ':');
    assert(seq![a].push(d).push(e) =~= seq![a, d, e]);
}

// ---------------------------------------------------------------------------
// Members written as mentions
// ---------------------------------------------------------------------------

/// What a member argument becomes once the mention marks are taken off:
/// spaces around, then every leading `<`, every trailing `>`, every
/// leading `@`, and every leading `!`.
pub open spec fn mention_body(input: Seq<char>) -> Seq<char> {
    strip_start(strip_start(strip_end(strip_start(trim_seq(input), '<'), '>'), '@'), '!')
}

/// The member a user argument names (`<@id>`, `<@!id>` or `id`).
pub fn parse_user_id(input: &str) -> (r: Option<u64>)
    ensures
        r == parse_u64_spec(mention_body(input@)),
{
    let v = chars_of(input);
    let a = trim_chars(&v);
    let b = strip_start_chars(&a, '<');
    let c = strip_end_chars(&b, '>');
    let d = strip_start_chars(&c, '@');
    let e = strip_start_chars(&d, '!');
    parse_u64_chars(&e)
}

/// A mention `<@id>` of a member.
pub open spec fn mention_text(id: u64) -> Seq<char> {
    seq!['<', '@'] + decimal(id as nat) + seq!['>']
}

proof fn lemma_strip_start_none(s: Seq<char>, c: char)
    requires
        s.len() == 0 || s[0] != c,
    ensures
        strip_start(s, c) == s,
{
}

proof fn lemma_strip_end_none(s: Seq<char>, c: char)
    requires
        s.len() == 0 || s.last() != c,
    ensures
        strip_end(s, c) == s,
{
}

/// A member mentioned as `<@id>` is read back as `id`.
pub proof fn lemma_mention_round_trip(id: u64)
    ensures
        parse_u64_spec(mention_body(mention_text(id))) == Some(id),
{
    let d = decimal(id as nat);
    crate::text::lemma_decimal_all_digits(id as nat);
    let m = mention_text(id);
    assert(crate::text::is_digit(d[0]));
    assert(crate::text::is_digit(d.last()));
    assert(!crate::text::is_ws(m[0]));
    assert(!crate::text::is_ws(m.last()));
    assert(crate::text::trim_start_seq(m) == m);
    assert(crate::text::trim_end_seq(m) == m);
    let s1 = m.drop_first();
    assert(s1 =~= seq!['@'] + d + seq!['>']);
    assert(strip_start(m, '<') == strip_start(s1, '<'));
    lemma_strip_start_none(s1, '<');
    let s2 = s1.drop_last();
    assert(s2 =~= seq!['@'] + d);
    assert(strip_end(s1, '>') == strip_end(s2, '>'));
    lemma_strip_end_none(s2, '>');
    let s3 = s2.drop_first();
    assert(s3 =~= d);
    assert(strip_start(s2, '@') == strip_start(s3, '@'));
    lemma_strip_start_none(s3, '@');
    lemma_strip_start_none(s3, '!');
    lemma_parse_u64_decimal(id);
}

// ---------------------------------------------------------------------------
// Submitted forms
// ---------------------------------------------------------------------------

/// One component of a submitted form.
pub enum ModalComponent {
    /// A text input, with its identifier and what was typed (if anything).
    InputText { custom_id: String, value: Option<String> },
    /// Any other component.
    Other,
}

pub open spec fn input_matches(c: ModalComponent, wanted: Seq<char>) -> bool {
    match c {
        ModalComponent::InputText { custom_id, .. } => custom_id@ == wanted,
        ModalComponent::Other => false,
    }
}

pub open spec fn input_value(c: ModalComponent) -> Option<Seq<char>> {
    match c {
        ModalComponent::InputText { value: Some(v), .. } => Some(v@),
        _ => None,
    }
}

/// The first text input of a row with the wanted identifier, by its value.
pub open spec fn row_value(row: Seq<ModalComponent>, wanted: Seq<char>) -> Option<
    Option<Seq<char>>,
>
    decreases row.len(),
{
    if row.len() == 0 {
        None
    } else if input_matches(row[0], wanted) {
        Some(input_value(row[0]))
    } else {
        row_value(row.drop_first(), wanted)
    }
}

/// The first text input of the form, row by row, with the wanted
/// identifier, by its value.
pub open spec fn rows_value(rows: Seq<Vec<ModalComponent>>, wanted: Seq<char>) -> Option<
    Option<Seq<char>>,
>
    decreases rows.len(),
{
    if rows.len() == 0 {
        None
    } else {
        match row_value(rows[0]@, wanted) {
            Some(v) => Some(v),
            None => rows_value(rows.drop_first(), wanted),
        }
    }
}

/// What was typed in the text input `wanted_id` of a form (the first such
/// input); `None` when there is none or nothing was typed.
pub fn modal_value(rows: &Vec<Vec<ModalComponent>>, wanted_id: &str) -> (r: Option<String>)
    ensures
        match r {
            Some(v) => rows_value(rows@, wanted_id@) == Some(Some(v@)),
            None => rows_value(rows@, wanted_id@) is None || rows_value(rows@, wanted_id@)
                == Some(None::<Seq<char>>),
        },
{
    let wanted = chars_of(wanted_id);
    let mut i: usize = 0;
    assert(rows@.skip(0) =~= rows@);
    while i < rows.len()
        invariant
            i <= rows.len(),
            wanted@ == wanted_id@,
            rows_value(rows@, wanted_id@) == rows_value(rows@.skip(i as int), wanted_id@),
        decreases rows.len() - i,
    {
        let row = &rows[i];
        let mut j: usize = 0;
        assert(row@.skip(0) =~= row@);
        while j < row.len()
            invariant
                j <= row.len(),
                i < rows.len(),
                *row == rows@[i as int],
                wanted@ == wanted_id@,
                rows_value(rows@, wanted_id@) == rows_value(rows@.skip(i as int), wanted_id@),
                row_value(row@, wanted_id@) == row_value(row@.skip(j as int), wanted_id@),
            decreases row.len() - j,
        {
            assert(row@.skip(j as int)[0] == row@[j as int]);
            assert(row@.skip(j as int).drop_first() =~= row@.skip(j + 1));
            assert(rows@.skip(i as int)[0] == rows@[i as int]);
            match &row[j] {
                ModalComponent::InputText { custom_id, value } => {
                    let id = chars_of(custom_id.as_str());
                    if crate::text::chars_eq(&id, &wanted) {
                        return match value {
                            Some(v) => Some(v.clone()),
                            None => None,
                        };
                    }
                },
                ModalComponent::Other => {},
            }
            j += 1;
        }
        assert(row@.skip(row.len() as int) =~= Seq::<ModalComponent>::empty());
        assert(rows@.skip(i as int)[0] == rows@[i as int]);
        assert(rows@.skip(i as int).drop_first() =~= rows@.skip(i + 1));
        i += 1;
    }
    None
}

} // verus!
