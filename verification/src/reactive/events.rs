use vstd::prelude::*;
use vstd::std_specs::hash::DefaultHasherAdditionalSpecFns;
use std::collections::hash_map::DefaultHasher;
use std::hash::Hasher;

verus! {

/// The fingerprint of an event name: the 64-bit hash of the name's
/// UTF-8 bytes.  Two names give the same fingerprint whenever they are
/// equal; the converse is only overwhelmingly likely, not guaranteed — a
/// fingerprint is an identity check, not a sound type system, and a
/// collision between two distinct names is not detected.
pub open spec fn fingerprint(name: Seq<char>) -> u64 {
    DefaultHasher::spec_finish(seq![vstd::utf8::encode_utf8(name)])
}

/// An opaque value identifying an event's kind, compared only for
/// equality.  It is produced by hashing a stable textual identifier, so
/// two logically distinct kinds whose names collide under the hash would
/// be indistinguishable; see [`fingerprint`].
#[derive(Eq, PartialEq, Debug, Copy, Clone, Structural)]
pub struct EventKind(pub u64);

/// Hash an event name into its fingerprint.
fn hash_name(name: &str) -> (r: u64)
    ensures
        r == fingerprint(name@),
{
    let mut h = DefaultHasher::new();
    h.write(name.as_bytes());
    proof {
        assert(h@ =~= seq![vstd::utf8::encode_utf8(name@)]);
    }
    h.finish()
}

/// A value used as an event for behavior-tree nodes: it carries a stable
/// textual identifier naming its kind.  For the sake of easy testing, the
/// unit type is an event (through [`EventType`]).
pub trait Event: Sized {
    /// The name identifying the event's kind.
    spec fn name_spec(&self) -> Seq<char>;

    /// A stable textual identifier for the event's kind.
    fn event_name(&self) -> (r: &str)
        ensures
            r@ == self.name_spec(),
    ;
}

/// The kind of an event: the fingerprint of its name.
pub open spec fn kind_of<E: Event>(e: E) -> EventKind {
    EventKind(fingerprint(e.name_spec()))
}

/// The fingerprint accessor available on every event.
pub trait EventExt: Event {
    /// The opaque kind of this event.
    fn event_type(&self) -> (k: EventKind)
        ensures
            k == kind_of(*self),
    {
        EventKind(hash_name(self.event_name()))
    }
}

impl<E: Event> EventExt for E {

}

/// An event type whose kind does not depend on the event's value: the one
/// name stands for the whole type.  A type implementing `EventType`
/// implements [`Event`] through it.
pub trait EventType: Sized {
    /// The name identifying the type's kind.
    spec fn declared_name_spec() -> Seq<char>;

    /// A stable textual identifier for the type's kind.
    fn declared_name() -> (r: &'static str)
        ensures
            r@ == Self::declared_name_spec(),
    ;
}

/// The kind accessors available on every marker event type.
pub trait EventTypeExt: EventType {
    /// The name identifying this type's kind.
    fn static_event_name() -> (r: &'static str)
        ensures
            r@ == Self::declared_name_spec(),
    {
        Self::declared_name()
    }

    /// The opaque kind shared by all events of this type.
    fn static_event_type() -> (k: EventKind)
        ensures
            k == (EventKind(fingerprint(Self::declared_name_spec()))),
    {
        EventKind(hash_name(Self::declared_name()))
    }
}

impl<E: EventType> EventTypeExt for E {

}

impl<E: EventType> Event for E {
    open spec fn name_spec(&self) -> Seq<char> {
        E::declared_name_spec()
    }

    fn event_name(&self) -> (r: &str) {
        E::declared_name()
    }
}

impl EventType for () {
    open spec fn declared_name_spec() -> Seq<char> {
        "unit"@
    }

    fn declared_name() -> (r: &'static str) {
        "unit"
    }
}

/// An event carrying its own kind name, for events told apart by value
/// rather than by type: each member of an enum-like family of events
/// carries the name of its own constructor.
pub struct NamedEvent {
    pub name: String,
}

impl NamedEvent {
    /// Build the event from its kind name.
    pub fn new(name: String) -> (r: Self)
        ensures
            r.name == name,
    {
        NamedEvent { name }
    }
}

impl Event for NamedEvent {
    open spec fn name_spec(&self) -> Seq<char> {
        self.name@
    }

    fn event_name(&self) -> (r: &str) {
        self.name.as_str()
    }
}

/// A maker of unit events, useful for driving a tree whose nodes do not
/// care which events they consume.
#[derive(Clone)]
pub struct UnitEventPump;

impl UnitEventPump {
    /// A batch of `n` unit events.
    pub fn events(n: usize) -> (r: Vec<()>)
        ensures
            r@.len() == n,
    {
        let mut v: Vec<()> = Vec::new();
        while v.len() < n
            invariant
                v@.len() <= n,
            decreases n - v@.len(),
        {
            v.push(());
        }
        v
    }
}

} // verus!
