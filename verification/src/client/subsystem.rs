//! Notifications about state changes of the server.

use std::hash::{Hash, Hasher};

use vstd::prelude::*;
use vstd::std_specs::cmp::PartialEqSpec;

use mpd_protocol::response::Frame;

use crate::client::error::ConnectionError;
use crate::protocol::{first_value, frame_fields, law_first_value, take_field};
use crate::responses::{is_absent, is_first};
use crate::text::same_text;

verus! {

/// Clones a boxed string: the clone holds the same characters.
pub assume_specification[ <std::boxed::Box<str> as std::clone::Clone>::clone ](
    text: &std::boxed::Box<str>,
) -> (clone: std::boxed::Box<str>)
    ensures
        clone@ == text@,
;

/// Turns a string into a boxed one: the characters stay what they are.
pub assume_specification[ std::string::String::into_boxed_str ](
    text: std::string::String,
) -> (boxed: std::boxed::Box<str>)
    ensures
        boxed@ == text@,
;

/// Feeds a string to a hasher with `str`'s `Hash`. What a string does to the state of a hasher is up
/// to the hasher, and nothing is said of it.
#[verifier::external_body]
pub(crate) fn feed<H: Hasher>(text: &str, state: &mut H) {
    text.hash(state)
}

/// Whether feeding the string to a hasher may do to it what happens to `state`, from its current
/// value to its final one.
pub closed spec fn is_fed<H: Hasher>(text: &str, state: &mut H) -> bool {
    call_ensures(feed::<H>, (text, state), ())
}

/// Events that occur during connection life cycle.
#[derive(Debug)]
pub enum ConnectionEvent {
    /// A change event in one of the subsystems of the server occurred.
    SubsystemChange(Subsystem),
    /// The connection was closed because of an error.
    ConnectionClosed(ConnectionError),
}

/// Subsystems of MPD which can receive state change notifications.
///
/// Derived from [the documentation](https://www.musicpd.org/doc/html/protocol.html#command-idle),
/// but also includes a catch-all to remain forward-compatible.
#[allow(missing_docs)]
#[non_exhaustive]
#[derive(Clone, Debug)]
pub enum Subsystem {
    Database,
    Message,
    Mixer,
    Options,
    Output,
    Partition,
    Player,
    /// Called `playlist` in the protocol.
    Queue,
    Sticker,
    StoredPlaylist,
    Subscription,
    Update,
    Neighbor,
    Mount,
    /// Catch-all variant used when the above variants do not match. Includes the raw subsystem
    /// from the MPD response.
    Other(Box<str>),
}

/// The protocol names of the subsystems that have a variant of their own.
pub open spec fn is_known_name(name: Seq<char>) -> bool {
    ||| name == "database"@
    ||| name == "message"@
    ||| name == "mixer"@
    ||| name == "options"@
    ||| name == "output"@
    ||| name == "partition"@
    ||| name == "player"@
    ||| name == "playlist"@
    ||| name == "sticker"@
    ||| name == "stored_playlist"@
    ||| name == "subscription"@
    ||| name == "update"@
    ||| name == "neighbor"@
    ||| name == "mount"@
}

impl Subsystem {
    /// The protocol name of the subsystem.
    pub open spec fn name(self) -> Seq<char> {
        match self {
            Subsystem::Database => "database"@,
            Subsystem::Message => "message"@,
            Subsystem::Mixer => "mixer"@,
            Subsystem::Options => "options"@,
            Subsystem::Output => "output"@,
            Subsystem::Partition => "partition"@,
            Subsystem::Player => "player"@,
            Subsystem::Queue => "playlist"@,
            Subsystem::Sticker => "sticker"@,
            Subsystem::StoredPlaylist => "stored_playlist"@,
            Subsystem::Subscription => "subscription"@,
            Subsystem::Update => "update"@,
            Subsystem::Neighbor => "neighbor"@,
            Subsystem::Mount => "mount"@,
            Subsystem::Other(raw) => raw@,
        }
    }

    /// Whether this is what the given protocol name stands for: the variant of that name if there
    /// is one, and the catch-all with the name in it if there is none.
    pub open spec fn stands_for(self, name: Seq<char>) -> bool {
        self.name() == name && (self is Other <==> !is_known_name(name))
    }

    /// The subsystem that the frame of an `idle` response reports as changed, if it reports one.
    pub fn from_frame(r: Frame) -> (subsystem: Option<Subsystem>)
        ensures
            match first_value(frame_fields(r), "changed"@) {
                Some(name) => subsystem matches Some(s) && s.stands_for(name),
                None => subsystem is None,
            },
    {
        let mut r = r;
        match take_field(&mut r, "changed") {
            Some(raw) => Some(Subsystem::from_name(raw)),
            None => None,
        }
    }

    /// The subsystem with the given protocol name.
    pub fn from_name(raw: String) -> (subsystem: Subsystem)
        ensures
            subsystem.stands_for(raw@),
    {
        let name = raw.as_str();
        if same_text(name, "database") {
            Subsystem::Database
        } else if same_text(name, "message") {
            Subsystem::Message
        } else if same_text(name, "mixer") {
            Subsystem::Mixer
        } else if same_text(name, "options") {
            Subsystem::Options
        } else if same_text(name, "output") {
            Subsystem::Output
        } else if same_text(name, "partition") {
            Subsystem::Partition
        } else if same_text(name, "player") {
            Subsystem::Player
        } else if same_text(name, "playlist") {
            Subsystem::Queue
        } else if same_text(name, "sticker") {
            Subsystem::Sticker
        } else if same_text(name, "stored_playlist") {
            Subsystem::StoredPlaylist
        } else if same_text(name, "subscription") {
            Subsystem::Subscription
        } else if same_text(name, "update") {
            Subsystem::Update
        } else if same_text(name, "neighbor") {
            Subsystem::Neighbor
        } else if same_text(name, "mount") {
            Subsystem::Mount
        } else {
            Subsystem::Other(raw.into_boxed_str())
        }
    }

    /// Returns the raw protocol name used for this subsystem.
    pub fn as_str(&self) -> (name: &str)
        ensures
            name@ == self.name(),
    {
        match self {
            Subsystem::Database => "database",
            Subsystem::Message => "message",
            Subsystem::Mixer => "mixer",
            Subsystem::Options => "options",
            Subsystem::Output => "output",
            Subsystem::Partition => "partition",
            Subsystem::Player => "player",
            Subsystem::Queue => "playlist",
            Subsystem::Sticker => "sticker",
            Subsystem::StoredPlaylist => "stored_playlist",
            Subsystem::Subscription => "subscription",
            Subsystem::Update => "update",
            Subsystem::Neighbor => "neighbor",
            Subsystem::Mount => "mount",
            Subsystem::Other(r) => r,
        }
    }
}

impl PartialEq for Subsystem {
    fn eq(&self, other: &Self) -> (equal: bool) {
        same_text(self.as_str(), other.as_str())
    }
}

impl vstd::std_specs::cmp::PartialEqSpecImpl for Subsystem {
    open spec fn obeys_eq_spec() -> bool {
        true
    }

    open spec fn eq_spec(&self, other: &Self) -> bool {
        self.name() == other.name()
    }
}

impl Eq for Subsystem {}

impl Hash for Subsystem {
    fn hash<H: Hasher>(&self, state: &mut H)
        ensures
            exists|text: &str, fed: &mut H| #[trigger]
                is_fed(text, fed) && text@ == self.name() && *fed == *old(
                    state,
                ) && *final(fed) == *final(state),
    {
        feed(self.as_str(), state);
        assert(exists|text: &str, fed: &mut H| #[trigger]
            call_ensures(feed::<H>, (text, fed), ()) && is_fed(text, fed) && text@ == self.name()
                && *fed == *old(state) && *final(fed) == *final(state));
    }
}

/// Subsystems that are equal are hashed alike: a hasher is fed the same string.
pub proof fn law_equal_subsystems_are_hashed_alike<H: Hasher>(
    a: Subsystem,
    b: Subsystem,
    before: H,
    after: H,
)
    requires
        a.eq_spec(&b),
    ensures
        (exists|text: &str, fed: &mut H| #[trigger]
            is_fed(text, fed) && text@ == a.name() && *fed == before
                && *final(fed) == after) <==> (exists|text: &str, fed: &mut H| #[trigger]
            is_fed(text, fed) && text@ == b.name() && *fed == before
                && *final(fed) == after),
{
}

/// Equality of subsystems is an equivalence.
pub proof fn law_equality_is_an_equivalence(a: Subsystem, b: Subsystem, c: Subsystem)
    ensures
        a.eq_spec(&a),
        a.eq_spec(&b) ==> b.eq_spec(&a),
        a.eq_spec(&b) && b.eq_spec(&c) ==> a.eq_spec(&c),
{
}

/// Reading the name of a subsystem gives a subsystem that is equal to it, and the same variant if it
/// has one of its own.
pub proof fn law_name_reads_back(subsystem: Subsystem, read: Subsystem)
    requires
        read.stands_for(subsystem.name()),
    ensures
        read.eq_spec(&subsystem),
        subsystem !is Other ==> read == subsystem,
{
    if subsystem !is Other {
        law_names_are_distinct(read, subsystem);
    }
}

/// Two subsystems that have variants of their own have different names, unless they are the same.
pub proof fn law_names_are_distinct(a: Subsystem, b: Subsystem)
    requires
        a !is Other,
        b !is Other,
        a.name() == b.name(),
    ensures
        a == b,
{
    reveal_strlit("database");
    reveal_strlit("message");
    reveal_strlit("mixer");
    reveal_strlit("options");
    reveal_strlit("output");
    reveal_strlit("partition");
    reveal_strlit("player");
    reveal_strlit("playlist");
    reveal_strlit("sticker");
    reveal_strlit("stored_playlist");
    reveal_strlit("subscription");
    reveal_strlit("update");
    reveal_strlit("neighbor");
    reveal_strlit("mount");
    assert("database"@.len() == 8);
    assert("message"@.len() == 7);
    assert("mixer"@.len() == 5);
    assert("options"@.len() == 7);
    assert("output"@.len() == 6);
    assert("partition"@.len() == 9);
    assert("player"@.len() == 6);
    assert("playlist"@.len() == 8);
    assert("sticker"@.len() == 7);
    assert("stored_playlist"@.len() == 15);
    assert("subscription"@.len() == 12);
    assert("update"@.len() == 6);
    assert("neighbor"@.len() == 8);
    assert("mount"@.len() == 5);
    // Names of the same length differ in one of the first two characters.
    assert("database"@[0] == 'd');
    assert("message"@[0] == 'm');
    assert("mixer"@[1] == 'i');
    assert("options"@[0] == 'o');
    assert("output"@[0] == 'o');
    assert("player"@[0] == 'p');
    assert("playlist"@[0] == 'p');
    assert("sticker"@[0] == 's');
    assert("update"@[0] == 'u');
    assert("neighbor"@[0] == 'n');
    assert("mount"@[1] == 'o');
}

/// A subsystem stands for a name exactly if it has the variant of that name, or is the catch-all with
/// just that name in it if there is no such variant.
pub proof fn law_what_a_name_stands_for(subsystem: Subsystem, name: Seq<char>)
    requires
        subsystem.stands_for(name),
    ensures
        subsystem is Database <==> name == "database"@,
        subsystem is Message <==> name == "message"@,
        subsystem is Mixer <==> name == "mixer"@,
        subsystem is Options <==> name == "options"@,
        subsystem is Output <==> name == "output"@,
        subsystem is Partition <==> name == "partition"@,
        subsystem is Player <==> name == "player"@,
        subsystem is Queue <==> name == "playlist"@,
        subsystem is Sticker <==> name == "sticker"@,
        subsystem is StoredPlaylist <==> name == "stored_playlist"@,
        subsystem is Subscription <==> name == "subscription"@,
        subsystem is Update <==> name == "update"@,
        subsystem is Neighbor <==> name == "neighbor"@,
        subsystem is Mount <==> name == "mount"@,
        subsystem matches Subsystem::Other(raw) ==> raw@ == name,
{
    if subsystem !is Other && name == "database"@ {
        law_names_are_distinct(subsystem, Subsystem::Database);
    }
    if subsystem !is Other && name == "message"@ {
        law_names_are_distinct(subsystem, Subsystem::Message);
    }
    if subsystem !is Other && name == "mixer"@ {
        law_names_are_distinct(subsystem, Subsystem::Mixer);
    }
    if subsystem !is Other && name == "options"@ {
        law_names_are_distinct(subsystem, Subsystem::Options);
    }
    if subsystem !is Other && name == "output"@ {
        law_names_are_distinct(subsystem, Subsystem::Output);
    }
    if subsystem !is Other && name == "partition"@ {
        law_names_are_distinct(subsystem, Subsystem::Partition);
    }
    if subsystem !is Other && name == "player"@ {
        law_names_are_distinct(subsystem, Subsystem::Player);
    }
    if subsystem !is Other && name == "playlist"@ {
        law_names_are_distinct(subsystem, Subsystem::Queue);
    }
    if subsystem !is Other && name == "sticker"@ {
        law_names_are_distinct(subsystem, Subsystem::Sticker);
    }
    if subsystem !is Other && name == "stored_playlist"@ {
        law_names_are_distinct(subsystem, Subsystem::StoredPlaylist);
    }
    if subsystem !is Other && name == "subscription"@ {
        law_names_are_distinct(subsystem, Subsystem::Subscription);
    }
    if subsystem !is Other && name == "update"@ {
        law_names_are_distinct(subsystem, Subsystem::Update);
    }
    if subsystem !is Other && name == "neighbor"@ {
        law_names_are_distinct(subsystem, Subsystem::Neighbor);
    }
    if subsystem !is Other && name == "mount"@ {
        law_names_are_distinct(subsystem, Subsystem::Mount);
    }
}

/// Reading a name gives the variant of that name, and the catch-all with just that name in it if
/// there is no such variant.
pub proof fn law_names_are_read(raw: String, subsystem: Subsystem)
    requires
        call_ensures(Subsystem::from_name, (raw,), subsystem),
    ensures
        subsystem is Database <==> raw@ == "database"@,
        subsystem is Message <==> raw@ == "message"@,
        subsystem is Mixer <==> raw@ == "mixer"@,
        subsystem is Options <==> raw@ == "options"@,
        subsystem is Output <==> raw@ == "output"@,
        subsystem is Partition <==> raw@ == "partition"@,
        subsystem is Player <==> raw@ == "player"@,
        subsystem is Queue <==> raw@ == "playlist"@,
        subsystem is Sticker <==> raw@ == "sticker"@,
        subsystem is StoredPlaylist <==> raw@ == "stored_playlist"@,
        subsystem is Subscription <==> raw@ == "subscription"@,
        subsystem is Update <==> raw@ == "update"@,
        subsystem is Neighbor <==> raw@ == "neighbor"@,
        subsystem is Mount <==> raw@ == "mount"@,
        subsystem matches Subsystem::Other(kept) ==> kept@ == raw@,
{
    law_what_a_name_stands_for(subsystem, raw@);
}

/// Each variant is written as its own name, and the catch-all as the name in it.
pub proof fn law_names_are_written(subsystem: Subsystem, name: &str)
    requires
        call_ensures(Subsystem::as_str, (&subsystem,), name),
    ensures
        subsystem is Database ==> name@ == "database"@,
        subsystem is Message ==> name@ == "message"@,
        subsystem is Mixer ==> name@ == "mixer"@,
        subsystem is Options ==> name@ == "options"@,
        subsystem is Output ==> name@ == "output"@,
        subsystem is Partition ==> name@ == "partition"@,
        subsystem is Player ==> name@ == "player"@,
        subsystem is Queue ==> name@ == "playlist"@,
        subsystem is Sticker ==> name@ == "sticker"@,
        subsystem is StoredPlaylist ==> name@ == "stored_playlist"@,
        subsystem is Subscription ==> name@ == "subscription"@,
        subsystem is Update ==> name@ == "update"@,
        subsystem is Neighbor ==> name@ == "neighbor"@,
        subsystem is Mount ==> name@ == "mount"@,
        subsystem matches Subsystem::Other(raw) ==> name@ == raw@,
{
}

/// What was read from a name is written as that name.
pub proof fn law_names_survive(raw: String, subsystem: Subsystem, name: &str)
    requires
        call_ensures(Subsystem::from_name, (raw,), subsystem),
        call_ensures(Subsystem::as_str, (&subsystem,), name),
    ensures
        name@ == raw@,
{
}

/// The first `changed` field of a frame names the subsystem that changed. Without such a field none
/// did.
pub proof fn law_a_frame_names_the_changed_subsystem(frame: Frame, subsystem: Option<Subsystem>)
    requires
        call_ensures(Subsystem::from_frame, (frame,), subsystem),
    ensures
        forall|i: int|
            #[trigger] is_first(frame_fields(frame), i) && frame_fields(frame)[i].0 == "changed"@
                ==> (subsystem matches Some(s) && s.stands_for(frame_fields(frame)[i].1)),
        is_absent(frame_fields(frame), "changed"@) ==> subsystem is None,
{
    law_first_value(frame_fields(frame), "changed"@);
}

/// Two subsystems are equal exactly when they are written alike.
pub proof fn law_subsystems_are_equal_by_name(
    a: Subsystem,
    b: Subsystem,
    left: &str,
    right: &str,
    equal: bool,
)
    requires
        call_ensures(Subsystem::as_str, (&a,), left),
        call_ensures(Subsystem::as_str, (&b,), right),
        call_ensures(<Subsystem as PartialEq>::eq, (&a, &b), equal),
    ensures
        equal <==> left@ == right@,
{
}

} // verus!
