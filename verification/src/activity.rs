//! The bot's rotating presence: which activity a command or a stored value
//! names, what activity a message becomes, and the order in which the
//! messages of a rotation are shown.
use vstd::prelude::*;

use crate::text::{chars_are, chars_of};

verus! {

/// The key under which the running rotation task is kept.
pub struct ActivityTaskKey;

/// The kinds of activity the bot can rotate through.
#[derive(Clone, Copy, Debug, PartialEq, Eq, Structural)]
pub enum RotatingActivityKind {
    Playing,
    Listening,
    Watching,
    Competing,
    Streaming,
}

/// The online status shown with the presence.
#[derive(Clone, Copy, Debug, PartialEq, Eq, Structural)]
pub enum PresenceStatus {
    Online,
    Idle,
    DoNotDisturb,
    Invisible,
}

/// An activity as the gateway receives it: its kind, its text and, for a
/// stream, the stream's address.
pub struct Activity {
    pub kind: RotatingActivityKind,
    pub name: String,
    pub url: Option<String>,
}

/// The address every streaming activity points to.
pub open spec fn stream_url() -> Seq<char> {
    "https://twitch.tv/discord"@
}

/// The kind that a rotation command selects.
pub open spec fn command_kind(command: Seq<char>) -> Option<RotatingActivityKind> {
    if command == "+playto"@ {
        Some(RotatingActivityKind::Playing)
    } else if command == "+listen"@ {
        Some(RotatingActivityKind::Listening)
    } else if command == "+watch"@ {
        Some(RotatingActivityKind::Watching)
    } else if command == "+compet"@ {
        Some(RotatingActivityKind::Competing)
    } else if command == "+stream"@ {
        Some(RotatingActivityKind::Streaming)
    } else {
        None
    }
}

/// The kind that a stored value names.
pub open spec fn db_kind(value: Seq<char>) -> Option<RotatingActivityKind> {
    if value == "playing"@ {
        Some(RotatingActivityKind::Playing)
    } else if value == "listening"@ {
        Some(RotatingActivityKind::Listening)
    } else if value == "watching"@ {
        Some(RotatingActivityKind::Watching)
    } else if value == "competing"@ {
        Some(RotatingActivityKind::Competing)
    } else if value == "streaming"@ {
        Some(RotatingActivityKind::Streaming)
    } else {
        None
    }
}

/// The stored name of a kind.
pub open spec fn db_name(kind: RotatingActivityKind) -> Seq<char> {
    match kind {
        RotatingActivityKind::Playing => "playing"@,
        RotatingActivityKind::Listening => "listening"@,
        RotatingActivityKind::Watching => "watching"@,
        RotatingActivityKind::Competing => "competing"@,
        RotatingActivityKind::Streaming => "streaming"@,
    }
}

/// The status a stored value names; anything unknown means online.
pub open spec fn status_of(value: Seq<char>) -> PresenceStatus {
    if value == "idle"@ {
        PresenceStatus::Idle
    } else if value == "dnd"@ {
        PresenceStatus::DoNotDisturb
    } else if value == "invisible"@ {
        PresenceStatus::Invisible
    } else {
        PresenceStatus::Online
    }
}

impl RotatingActivityKind {
    /// The kind selected by a rotation command (`+playto`, `+listen`,
    /// `+watch`, `+compet`, `+stream`).
    pub fn from_command(command: &str) -> (r: Option<Self>)
        ensures
            r == command_kind(command@),
    {
        let v = chars_of(command);
        if chars_are(&v, "+playto") {
            Some(Self::Playing)
        } else if chars_are(&v, "+listen") {
            Some(Self::Listening)
        } else if chars_are(&v, "+watch") {
            Some(Self::Watching)
        } else if chars_are(&v, "+compet") {
            Some(Self::Competing)
        } else if chars_are(&v, "+stream") {
            Some(Self::Streaming)
        } else {
            None
        }
    }

    /// The kind a stored value names.
    pub fn from_db(value: &str) -> (r: Option<Self>)
        ensures
            r == db_kind(value@),
    {
        let v = chars_of(value);
        if chars_are(&v, "playing") {
            Some(Self::Playing)
        } else if chars_are(&v, "listening") {
            Some(Self::Listening)
        } else if chars_are(&v, "watching") {
            Some(Self::Watching)
        } else if chars_are(&v, "competing") {
            Some(Self::Competing)
        } else if chars_are(&v, "streaming") {
            Some(Self::Streaming)
        } else {
            None
        }
    }

    /// The value under which the kind is stored.
    pub fn as_db(&self) -> (r: &'static str)
        ensures
            r@ == db_name(*self),
    {
        match self {
            Self::Playing => "playing",
            Self::Listening => "listening",
            Self::Watching => "watching",
            Self::Competing => "competing",
            Self::Streaming => "streaming",
        }
    }

    /// The activity of this kind that shows `message`.
    pub fn to_activity(self, message: &str) -> (a: Activity)
        ensures
            a.kind == self,
            a.name@ == message@,
            a.url is Some <==> self == RotatingActivityKind::Streaming,
            a.url matches Some(u) ==> u@ == stream_url(),
    {
        let name = String::from_str(message);
        match self {
            Self::Streaming => Activity {
                kind: self,
                name,
                url: Some(String::from_str("https://twitch.tv/discord")),
            },
            _ => Activity { kind: self, name, url: None },
        }
    }
}

/// The status a stored value names (`idle`, `dnd`, `invisible`; anything
/// else is online).
pub fn parse_status(value: &str) -> (r: PresenceStatus)
    ensures
        r == status_of(value@),
{
    let v = chars_of(value);
    if chars_are(&v, "idle") {
        PresenceStatus::Idle
    } else if chars_are(&v, "dnd") {
        PresenceStatus::DoNotDisturb
    } else if chars_are(&v, "invisible") {
        PresenceStatus::Invisible
    } else {
        PresenceStatus::Online
    }
}

/// Reading back the stored name of a kind gives the kind.
pub proof fn lemma_db_round_trip(kind: RotatingActivityKind)
    ensures
        db_kind(db_name(kind)) == Some(kind),
{
    reveal_strlit("playing");
    reveal_strlit("listening");
    reveal_strlit("watching");
    reveal_strlit("competing");
    reveal_strlit("streaming");
    assert("playing"@[0] != "listening"@[0]);
    assert("playing"@[0] != "watching"@[0]);
    assert("playing"@[0] != "competing"@[0]);
    assert("playing"@[0] != "streaming"@[0]);
    assert("listening"@[0] != "watching"@[0]);
    assert("listening"@[0] != "competing"@[0]);
    assert("listening"@[0] != "streaming"@[0]);
    assert("watching"@[0] != "competing"@[0]);
    assert("watching"@[0] != "streaming"@[0]);
    assert("competing"@[0] != "streaming"@[0]);
}

/// Distinct kinds are stored under distinct names.
pub proof fn lemma_db_name_injective(a: RotatingActivityKind, b: RotatingActivityKind)
    requires
        db_name(a) == db_name(b),
    ensures
        a == b,
{
    lemma_db_round_trip(a);
    lemma_db_round_trip(b);
}

// ---------------------------------------------------------------------------
// Rotation
// ---------------------------------------------------------------------------

/// A running rotation: the messages, shown one after the other every
/// period, starting again from the first after the last.
pub struct ActivityRotation {
    kind: RotatingActivityKind,
    messages: Vec<String>,
    index: usize,
}

/// The position shown after `steps` steps from the start of a rotation of
/// `len` messages.
pub open spec fn position_after(steps: nat, len: nat) -> nat
    decreases steps,
{
    if steps == 0 {
        0
    } else {
        ((position_after((steps - 1) as nat, len) + 1) as int % (len as int)) as nat
    }
}

impl ActivityRotation {
    pub closed spec fn wf(&self) -> bool {
        self.messages.len() > 0 && self.index < self.messages.len()
    }

    pub closed spec fn kind_spec(&self) -> RotatingActivityKind {
        self.kind
    }

    pub closed spec fn messages_spec(&self) -> Seq<Seq<char>> {
        Seq::new(self.messages@.len(), |i: int| self.messages@[i]@)
    }

    /// The position of the message shown next.
    pub closed spec fn position(&self) -> nat {
        self.index as nat
    }

    /// A rotation over `messages`, or `None` when there is nothing to show
    /// (an empty list starts no rotation).
    pub fn new(kind: RotatingActivityKind, messages: Vec<String>) -> (r: Option<Self>)
        ensures
            messages.len() == 0 <==> r is None,
            r matches Some(rot) ==> {
                &&& rot.wf()
                &&& rot.position() == 0
                &&& rot.kind_spec() == kind
                &&& rot.messages_spec().len() == messages@.len()
                &&& forall|i: int|
                    0 <= i < messages@.len() ==> #[trigger] rot.messages_spec()[i] == messages@[i]@
            },
    {
        if messages.len() == 0 {
            None
        } else {
            Some(ActivityRotation { kind, messages, index: 0 })
        }
    }

    /// The activity to show now; the rotation moves on to the next message.
    pub fn next_activity(&mut self) -> (a: Activity)
        requires
            old(self).wf(),
        ensures
            final(self).wf(),
            final(self).kind_spec() == old(self).kind_spec(),
            final(self).messages_spec() == old(self).messages_spec(),
            final(self).position() == (old(self).position() + 1) as int % (old(
                self,
            ).messages_spec().len() as int),
            a.kind == old(self).kind_spec(),
            a.name@ == old(self).messages_spec()[old(self).position() as int],
    {
        let len = self.messages.len();
        let i = self.index % len;
        proof {
            vstd::arithmetic::div_mod::lemma_small_mod(self.index as nat, len as nat);
        }
        assert(self.messages_spec()[i as int] == self.messages@[i as int]@);
        let a = self.kind.to_activity(self.messages[i].as_str());
        self.index = (self.index + 1) % len;
        a
    }
}

/// Starting from a new rotation, the message shown at step `steps` is the
/// one at `steps` modulo the number of messages: the messages come in
/// order and the rotation starts over after the last.
pub proof fn lemma_rotation_cycles(steps: nat, len: nat)
    requires
        len > 0,
    ensures
        position_after(steps, len) == (steps as int) % (len as int),
    decreases steps,
{
    if steps > 0 {
        lemma_rotation_cycles((steps - 1) as nat, len);
        let p = position_after((steps - 1) as nat, len);
        let x = (steps - 1) as int;
        let m = len as int;
        assert(position_after(steps, len) == (p + 1) as int % m);
        assert(p == x % m);
        vstd::arithmetic::div_mod::lemma_add_mod_noop_right(1, x, m);
        assert((1 + (x % m)) % m == (1 + x) % m);
        assert(1 + x == steps as int);
    } else {
        vstd::arithmetic::div_mod::lemma_small_mod(0, len);
    }
}

/// The rotation commands and the activity each selects: `+playto`
/// playing, `+listen` listening, `+watch` watching, `+compet` competing,
/// `+stream` streaming.
pub proof fn lemma_command_words(command: Seq<char>)
    ensures
        (command == "+playto"@) ==> command_kind(command) == Some(RotatingActivityKind::Playing),
        (command == "+listen"@) ==> command_kind(command) == Some(RotatingActivityKind::Listening),
        (command == "+watch"@) ==> command_kind(command) == Some(RotatingActivityKind::Watching),
        (command == "+compet"@) ==> command_kind(command) == Some(RotatingActivityKind::Competing),
        (command == "+stream"@) ==> command_kind(command) == Some(RotatingActivityKind::Streaming),
{
    reveal_strlit("+playto");
    reveal_strlit("+listen");
    reveal_strlit("+watch");
    reveal_strlit("+compet");
    reveal_strlit("+stream");
    if command == "+listen"@ {
        assert("+listen"@[1] != "+playto"@[1]);
    }
    if command == "+watch"@ {
        assert("+watch"@.len() != "+playto"@.len());
        assert("+watch"@.len() != "+listen"@.len());
    }
    if command == "+compet"@ {
        assert("+compet"@[1] != "+playto"@[1]);
        assert("+compet"@[1] != "+listen"@[1]);
        assert("+compet"@.len() != "+watch"@.len());
    }
    if command == "+stream"@ {
        assert("+stream"@[1] != "+playto"@[1]);
        assert("+stream"@[1] != "+listen"@[1]);
        assert("+stream"@.len() != "+watch"@.len());
        assert("+stream"@[1] != "+compet"@[1]);
    }
}

/// The stored names of the activities: `playing`, `listening`,
/// `watching`, `competing`, `streaming`.
pub proof fn lemma_stored_kind_words(value: Seq<char>)
    ensures
        (value == "playing"@) ==> db_kind(value) == Some(RotatingActivityKind::Playing),
        (value == "listening"@) ==> db_kind(value) == Some(RotatingActivityKind::Listening),
        (value == "watching"@) ==> db_kind(value) == Some(RotatingActivityKind::Watching),
        (value == "competing"@) ==> db_kind(value) == Some(RotatingActivityKind::Competing),
        (value == "streaming"@) ==> db_kind(value) == Some(RotatingActivityKind::Streaming),
{
    reveal_strlit("playing");
    reveal_strlit("listening");
    reveal_strlit("watching");
    reveal_strlit("competing");
    reveal_strlit("streaming");
    if value == "listening"@ {
        assert("listening"@.len() != "playing"@.len());
    }
    if value == "watching"@ {
        assert("watching"@.len() != "playing"@.len());
        assert("watching"@.len() != "listening"@.len());
    }
    if value == "competing"@ {
        assert("competing"@.len() != "playing"@.len());
        assert("competing"@[0] != "listening"@[0]);
        assert("competing"@.len() != "watching"@.len());
    }
    if value == "streaming"@ {
        assert("streaming"@.len() != "playing"@.len());
        assert("streaming"@[0] != "listening"@[0]);
        assert("streaming"@.len() != "watching"@.len());
        assert("streaming"@[0] != "competing"@[0]);
    }
}

/// The stored statuses: `idle`, `dnd` (do not disturb), `invisible`.
pub proof fn lemma_status_words(value: Seq<char>)
    ensures
        (value == "idle"@) ==> status_of(value) == PresenceStatus::Idle,
        (value == "dnd"@) ==> status_of(value) == PresenceStatus::DoNotDisturb,
        (value == "invisible"@) ==> status_of(value) == PresenceStatus::Invisible,
{
    reveal_strlit("idle");
    reveal_strlit("dnd");
    reveal_strlit("invisible");
    if value == "dnd"@ {
        assert("dnd"@.len() != "idle"@.len());
    }
    if value == "invisible"@ {
        assert("invisible"@.len() != "idle"@.len());
        assert("invisible"@.len() != "dnd"@.len());
    }
}

} // verus!
