//! The timeline core of a federated chat homeserver: event positions, the
//! per-room stores and gates, and the pipelines that append events to a room.

use vstd::prelude::*;

pub mod caches;
pub mod error;
pub mod gate;
pub mod globals;
pub mod identifiers;
pub mod json;
pub mod keymap;
pub mod pdu;
pub mod pdu_count;
pub mod protocol;
pub mod read_receipt;
pub mod short;
pub mod signing_keys;
pub mod state;
pub mod text;
pub mod timeline;
pub mod uiaa;
pub mod user;

verus! {

/// The stores beside the timeline that the pipelines read and write.
pub struct Stores {
    pub globals: globals::Data,
    pub short: short::Service,
    pub state: state::Data,
    pub read_receipt: read_receipt::Data,
    pub user: user::Service,
}

impl Stores {
    /// Every store is well formed.
    pub open spec fn wf(&self) -> bool {
        &&& self.short.wf()
        &&& self.state.wf()
        &&& self.read_receipt.wf()
        &&& self.user.wf()
    }

    /// Empty stores.
    pub fn new() -> (r: Stores)
        ensures
            r.wf(),
            r.globals.count() == 0,
            r.short.rooms() == Map::<Seq<char>, u64>::empty(),
            r.short.events() == Map::<Seq<char>, u64>::empty(),
            r.state.leaves() == Map::<Seq<char>, Seq<Seq<char>>>::empty(),
            r.state.room_states() == Map::<Seq<char>, u64>::empty(),
            r.state.event_states() == Map::<u64, u64>::empty(),
    {
        Stores {
            globals: globals::Data::new(),
            short: short::Service::new(),
            state: state::Data::new(),
            read_receipt: read_receipt::Data::new(),
            user: user::Service::new(),
        }
    }
}

/// Of the stores, only the short identifiers of events and the global
/// counter may differ.
pub open spec fn only_short_ids_differ(before: &Stores, after: &Stores) -> bool {
    &&& after.wf()
    &&& after.short.rooms() == before.short.rooms()
    &&& after.state.leaves() == before.state.leaves()
    &&& after.state.room_states() == before.state.room_states()
    &&& after.state.event_states() == before.state.event_states()
    &&& after.globals.same_marks(&before.globals)
    &&& after.read_receipt.markers() == before.read_receipt.markers()
    &&& after.read_receipt.updates() == before.read_receipt.updates()
    &&& after.read_receipt.receipts() == before.read_receipt.receipts()
    &&& after.user.last_reads() == before.user.last_reads()
    &&& after.user.tokens() == before.user.tokens()
    &&& after.user.notifications() == before.user.notifications()
    &&& after.user.highlights() == before.user.highlights()
}

/// The stores are as they were.
pub open spec fn untouched(before: &Stores, after: &Stores) -> bool {
    &&& only_short_ids_differ(before, after)
    &&& after.short.events() == before.short.events()
    &&& after.globals.count() == before.globals.count()
}

/// The services of a homeserver's timeline core.
pub struct Services {
    pub stores: Stores,
    pub timeline: timeline::Service,
    pub uiaa: uiaa::Service,
}

impl Services {
    /// Every service is well formed.
    pub open spec fn wf(&self) -> bool {
        &&& self.stores.wf()
        &&& self.timeline.wf()
        &&& self.uiaa.wf()
        &&& timeline::in_step(&self.timeline, &self.stores)
    }

    /// Services over empty stores.
    pub fn build() -> (r: Services)
        ensures
            r.wf(),
            r.stores.globals.count() == 0,
            r.timeline.stored() == Seq::<timeline::data::Stored>::empty(),
    {
        Services {
            stores: Stores::new(),
            timeline: timeline::Service::build(),
            uiaa: uiaa::Service::build(),
        }
    }
}

/// The place where the services of a running server stand: empty before
/// `init` and after `fini`.
pub struct ServiceSlot {
    current: Option<Services>,
}

impl ServiceSlot {
    /// The services that stand in the slot, if any.
    pub closed spec fn held(&self) -> Option<Services> {
        self.current
    }

    /// An empty slot.
    pub fn new() -> (r: ServiceSlot)
        ensures
            r.held().is_none(),
    {
        ServiceSlot { current: None }
    }
}

/// Puts `services` into the slot, in place of what stood there.
pub fn init(slot: &mut ServiceSlot, services: Services)
    ensures
        final(slot).held() == Some(services),
{
    slot.current = Some(services);
}

/// Takes the services out of the slot and gives them back to be dropped.
/// After this `available` is false.
pub fn fini(slot: &mut ServiceSlot) -> (r: Services)
    requires
        old(slot).held().is_some(),
    ensures
        final(slot).held().is_none(),
        Some(r) == old(slot).held(),
{
    let s = slot.current.take();
    s.unwrap()
}

/// The services of the running server.
pub fn services(slot: &ServiceSlot) -> (r: &Services)
    requires
        slot.held().is_some(),
    ensures
        Some(*r) == slot.held(),
{
    slot.current.as_ref().unwrap()
}

/// Whether the services are up: true from `init` until `fini`.
pub fn available(slot: &ServiceSlot) -> (b: bool)
    ensures
        b == slot.held().is_some(),
{
    slot.current.is_some()
}

} // verus!
