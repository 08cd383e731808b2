//! The caches of the server: what they hold and how they are emptied.

use crate::keymap::StrMap;
use crate::timeline::Service;
use lru_cache::LruCache;
use std::hash::{BuildHasher, Hash};
use vstd::prelude::*;

verus! {

/// A cache that forgets the entry that was used least recently once it
/// holds more than it was made for.
#[verifier::external_type_specification]
#[verifier::external_body]
#[verifier::reject_recursive_types(K)]
#[verifier::reject_recursive_types(V)]
#[verifier::reject_recursive_types(S)]
pub struct ExLruCache<K: Eq + Hash, V, S: BuildHasher>(lru_cache::LruCache<K, V, S>);

/// The cache of auth chains: each chain under the events it was computed for.
pub type ChainCache = LruCache<Vec<u64>, Vec<u64>>;

/// The auth chains that a cache holds, each under the events it was
/// computed for.
pub uninterp spec fn chains_in(cache: ChainCache) -> Map<Seq<u64>, Seq<u64>>;

/// The number of entries that a cache was made for.
pub uninterp spec fn limit_of(cache: ChainCache) -> nat;

/// Calls `LruCache::new`: an empty cache made for `capacity` entries.
#[verifier::external_body]
fn new_chain_cache(capacity: usize) -> (r: ChainCache)
    ensures
        chains_in(r) == (Map::<Seq<u64>, Seq<u64>>::empty()),
        limit_of(r) == capacity,
{
    LruCache::new(capacity)
}

/// Calls `LruCache::len`: the number of entries that the cache holds.
#[verifier::external_body]
fn chain_cache_len(cache: &ChainCache) -> (n: usize)
    ensures
        n == chains_in(*cache).dom().len(),
{
    cache.len()
}

/// Calls `LruCache::capacity`: the number of entries that the cache was
/// made for.
#[verifier::external_body]
fn chain_cache_capacity(cache: &ChainCache) -> (n: usize)
    ensures
        n == limit_of(*cache),
{
    cache.capacity()
}

/// Calls `LruCache::insert`, which puts the entry in and then, where the
/// cache holds more than it was made for, drops the entry that was used
/// least recently. So nothing is in the cache afterwards that was not there
/// before, but for the new entry; the new entry is there unless the cache
/// was made for none; and the cache holds no more than it was made for, if
/// it did not before.
#[verifier::external_body]
fn chain_cache_insert(cache: &mut ChainCache, key: Vec<u64>, chain: Vec<u64>)
    ensures
        limit_of(*final(cache)) == limit_of(*old(cache)),
        chains_in(*final(cache)).submap_of(chains_in(*old(cache)).insert(key@, chain@)),
        limit_of(*old(cache)) > 0 ==> chains_in(*final(cache)).contains_key(key@),
        chains_in(*old(cache)).dom().len() <= limit_of(*old(cache)) ==> chains_in(
            *final(cache),
        ).dom().len() <= limit_of(*old(cache)),
{
    cache.insert(key, chain);
}

/// The caches of the server.
pub struct Caches {
    auth_chain_cache: ChainCache,
    appservice_in_room_cache: StrMap<StrMap<bool>>,
}

/// How full the caches are.
#[derive(Clone, Copy, Debug, PartialEq, Eq)]
pub struct CacheUsage {
    /// The auth chains that are held.
    pub auth_chain_cache: usize,
    /// The auth chains that can be held at most.
    pub max_auth_chain_cache: usize,
    /// The rooms for which the presence of application services is held.
    pub appservice_in_room_cache: usize,
    /// The rooms whose latest position is held.
    pub lasttimelinecount_cache: usize,
}

impl Caches {
    /// The auth chains that are held.
    pub closed spec fn auth_chains(&self) -> Map<Seq<u64>, Seq<u64>> {
        chains_in(self.auth_chain_cache)
    }

    /// The number of auth chains that can be held at most.
    pub closed spec fn auth_chain_limit(&self) -> nat {
        limit_of(self.auth_chain_cache)
    }

    /// The rooms about which something is held on application services.
    pub closed spec fn appservice_rooms(&self) -> Set<Seq<char>> {
        self.appservice_in_room_cache@.dom()
    }

    /// What is held on whether the application service `appservice` is in
    /// `room`, if anything.
    pub closed spec fn appservice_in_room(&self, room: Seq<char>, appservice: Seq<char>) -> Option<
        bool,
    > {
        if self.appservice_in_room_cache@.contains_key(room)
            && self.appservice_in_room_cache@[room]@.contains_key(appservice) {
            Some(self.appservice_in_room_cache@[room]@[appservice])
        } else {
            None
        }
    }

    /// The caches are well formed.
    pub closed spec fn wf(&self) -> bool {
        &&& self.appservice_in_room_cache.wf()
        &&& forall|room: Seq<char>| #[trigger]
            self.appservice_in_room_cache@.contains_key(room)
                ==> self.appservice_in_room_cache@[room].wf()
    }

    /// Empty caches; the auth chain cache is made for `auth_chain_capacity`
    /// entries.
    pub fn new(auth_chain_capacity: usize) -> (r: Caches)
        ensures
            r.wf(),
            r.auth_chains() == Map::<Seq<u64>, Seq<u64>>::empty(),
            r.auth_chain_limit() == auth_chain_capacity,
            r.appservice_rooms() == Set::<Seq<char>>::empty(),
    {
        Caches {
            auth_chain_cache: new_chain_cache(auth_chain_capacity),
            appservice_in_room_cache: StrMap::new(),
        }
    }

    /// Holds `chain` as the auth chain of `events` from now on, as far as
    /// the cache has room: to make room the entry that was used least
    /// recently goes.
    pub fn cache_auth_chain(&mut self, events: Vec<u64>, chain: Vec<u64>)
        requires
            old(self).wf(),
        ensures
            final(self).wf(),
            final(self).auth_chain_limit() == old(self).auth_chain_limit(),
            final(self).auth_chains().submap_of(old(self).auth_chains().insert(events@, chain@)),
            old(self).auth_chain_limit() > 0 ==> final(self).auth_chains().contains_key(events@)
                && final(self).auth_chains()[events@] == chain@,
            final(self).appservice_rooms() == old(self).appservice_rooms(),
    {
        let ghost key = events@;
        let ghost val = chain@;
        chain_cache_insert(&mut self.auth_chain_cache, events, chain);
        proof {
            if old(self).auth_chain_limit() > 0 {
                assert(self.auth_chains().dom().contains(key));
                assert(old(self).auth_chains().insert(key, val).dom().contains(key));
            }
        }
    }

    /// Holds `present` as the answer to whether the application service
    /// `appservice` is in `room_id`.
    pub fn cache_appservice_in_room(&mut self, room_id: &String, appservice: &String, present: bool)
        requires
            old(self).wf(),
        ensures
            final(self).wf(),
            final(self).auth_chains() == old(self).auth_chains(),
            final(self).auth_chain_limit() == old(self).auth_chain_limit(),
            final(self).appservice_rooms() == old(self).appservice_rooms().insert(room_id@),
            forall|room: Seq<char>, service: Seq<char>|
                #[trigger] final(self).appservice_in_room(room, service) == (if room == room_id@
                    && service == appservice@ {
                    Some(present)
                } else {
                    old(self).appservice_in_room(room, service)
                }),
    {
        let mut inner = match self.appservice_in_room_cache.remove(room_id) {
            Some(m) => m,
            None => StrMap::new(),
        };
        inner.insert(appservice.clone(), present);
        self.appservice_in_room_cache.insert(room_id.clone(), inner);
        assert(self.appservice_rooms() =~= old(self).appservice_rooms().insert(room_id@));
    }

    /// How full the caches are.
    pub fn memory_usage(&self, timeline: &Service) -> (r: CacheUsage)
        requires
            self.wf(),
            timeline.wf(),
        ensures
            r.auth_chain_cache == self.auth_chains().dom().len(),
            r.max_auth_chain_cache == self.auth_chain_limit(),
            r.appservice_in_room_cache == self.appservice_rooms().len(),
            r.lasttimelinecount_cache == timeline.last_counts().dom().len(),
    {
        CacheUsage {
            auth_chain_cache: chain_cache_len(&self.auth_chain_cache),
            max_auth_chain_cache: chain_cache_capacity(&self.auth_chain_cache),
            appservice_in_room_cache: self.appservice_in_room_cache.len(),
            lasttimelinecount_cache: timeline.memory_usage().lasttimelinecount_cache,
        }
    }

    /// Empties caches, more of them the larger `amount` is: above 1 the auth
    /// chain cache, which stays as large as it was made; above 2 also what
    /// is held about application services in rooms; above 3 also the
    /// remembered latest positions of the timeline.
    pub fn clear_caches(&mut self, timeline: &mut Service, amount: u32)
        requires
            old(self).wf(),
            old(timeline).wf(),
        ensures
            final(self).wf(),
            final(timeline).wf(),
            final(self).auth_chain_limit() == old(self).auth_chain_limit(),
            final(self).auth_chains() == (if amount > 1 {
                Map::<Seq<u64>, Seq<u64>>::empty()
            } else {
                old(self).auth_chains()
            }),
            final(self).appservice_rooms() == (if amount > 2 {
                Set::<Seq<char>>::empty()
            } else {
                old(self).appservice_rooms()
            }),
            amount <= 2 ==> forall|room: Seq<char>, service: Seq<char>|
                #[trigger] final(self).appservice_in_room(room, service) == old(
                    self,
                ).appservice_in_room(room, service),
            final(timeline).last_counts() == (if amount > 3 {
                Map::<Seq<char>, crate::pdu_count::PduCount>::empty()
            } else {
                old(timeline).last_counts()
            }),
            final(timeline).stored() == old(timeline).stored(),
            final(timeline).positions() == old(timeline).positions(),
            final(timeline).outliers() == old(timeline).outliers(),
            final(timeline).insert_gate() == old(timeline).insert_gate(),
    {
        if amount > 1 {
            let capacity = chain_cache_capacity(&self.auth_chain_cache);
            self.auth_chain_cache = new_chain_cache(capacity);
        }
        if amount > 2 {
            self.appservice_in_room_cache = StrMap::new();
        }
        if amount > 3 {
            timeline.clear_cache();
        }
    }
}

} // verus!
