//! Server-wide counters and versions.

use crate::caches::{CacheUsage, Caches};
use crate::error::{Error, Reason};
use crate::pdu_count::PduCount;
use crate::keymap::StrMap;
use crate::protocol::{is_keypair, keypair_valid, Keypair};
use crate::signing_keys::{
    extended, key_list, key_texts, old_key_list, usable, ServerSigningKeys,
};
use crate::timeline::Service;
use vstd::prelude::*;

verus! {

/// The server-wide counters: the global event counter, from which every
/// storage position and short identifier is drawn, and two version marks.
pub struct Data {
    counter: u64,
    last_check_for_updates_id: u64,
    database_version: u64,
    keypair: Option<Keypair>,
}

/// The version label and the document of an optional key pair.
pub open spec fn key_parts(k: Option<Keypair>) -> Option<(Seq<char>, Seq<u8>)> {
    match k {
        Some(k) => Some((k.version@, k.der@)),
        None => None,
    }
}

impl Data {
    /// The last value that the global counter handed out; 0 before the first.
    pub closed spec fn count(&self) -> u64 {
        self.counter
    }

    /// The identifier of the last update notice that was seen.
    pub closed spec fn updates_id(&self) -> u64 {
        self.last_check_for_updates_id
    }

    /// The version of the stored data's layout.
    pub closed spec fn version(&self) -> u64 {
        self.database_version
    }

    /// The stored signing key pair, if one is stored: its version label
    /// and its document.
    pub closed spec fn stored_keypair(&self) -> Option<(Seq<char>, Seq<u8>)> {
        key_parts(self.keypair)
    }

    /// What `next_count` returns in this state.
    pub open spec fn next_count_spec(&self) -> Result<u64, Error> {
        if self.count() < u64::MAX {
            Ok((self.count() + 1) as u64)
        } else {
            Err(Error::BadDatabase(Reason::CountExhausted))
        }
    }

    /// Where the counter stands after `n` more calls of `next_count`.
    pub open spec fn count_after(&self, n: nat) -> u64 {
        if self.count() + n <= u64::MAX {
            (self.count() + n) as u64
        } else {
            u64::MAX
        }
    }

    /// Whether everything but the event counter is as in `other`.
    pub open spec fn same_marks(&self, other: &Data) -> bool {
        &&& self.updates_id() == other.updates_id()
        &&& self.version() == other.version()
        &&& self.stored_keypair() == other.stored_keypair()
    }

    /// Fresh counters, all at zero.
    pub fn new() -> (r: Self)
        ensures
            r.count() == 0,
            r.updates_id() == 0,
            r.version() == 0,
            r.stored_keypair().is_none(),
    {
        Data { counter: 0, last_check_for_updates_id: 0, database_version: 0, keypair: None }
    }

    /// Advances the global counter by one and returns its new value, which is
    /// larger than every value returned before. A counter that has run out
    /// stays as it is and the call fails.
    pub fn next_count(&mut self) -> (r: Result<u64, Error>)
        ensures
            final(self).same_marks(old(self)),
            r == old(self).next_count_spec(),
            final(self).count() == old(self).count_after(1),
            r matches Ok(n) ==> n > old(self).count() && n == final(self).count(),
    {
        if self.counter == u64::MAX {
            return Err(Error::BadDatabase(Reason::CountExhausted));
        }
        self.counter = self.counter + 1;
        Ok(self.counter)
    }

    /// The last value that the global counter handed out.
    pub fn current_count(&self) -> (r: Result<u64, Error>)
        ensures
            r == Ok::<u64, Error>(self.count()),
    {
        Ok(self.counter)
    }

    /// The identifier of the last update notice that was seen.
    pub fn last_check_for_updates_id(&self) -> (r: Result<u64, Error>)
        ensures
            r == Ok::<u64, Error>(self.updates_id()),
    {
        Ok(self.last_check_for_updates_id)
    }

    /// Records `id` as the last update notice that was seen.
    pub fn update_check_for_updates_id(&mut self, id: u64) -> (r: Result<(), Error>)
        ensures
            r.is_ok(),
            final(self).updates_id() == id,
            final(self).count() == old(self).count(),
            final(self).version() == old(self).version(),
            final(self).stored_keypair() == old(self).stored_keypair(),
    {
        self.last_check_for_updates_id = id;
        Ok(())
    }

    /// The version of the stored data's layout; 0 where none was recorded.
    pub fn database_version(&self) -> (r: Result<u64, Error>)
        ensures
            r == Ok::<u64, Error>(self.version()),
    {
        Ok(self.database_version)
    }

    /// Records `new_version` as the version of the stored data's layout.
    pub fn bump_database_version(&mut self, new_version: u64) -> (r: Result<(), Error>)
        ensures
            r.is_ok(),
            final(self).version() == new_version,
            final(self).count() == old(self).count(),
            final(self).updates_id() == old(self).updates_id(),
            final(self).stored_keypair() == old(self).stored_keypair(),
    {
        self.database_version = new_version;
        Ok(())
    }

    /// The signing key pair of this server. Where none is stored yet,
    /// `generated` is stored first. The stored pair is returned if it makes
    /// a key pair; a stored pair that makes none is a failure, and stays.
    pub fn load_keypair(&mut self, generated: Keypair) -> (r: Result<Keypair, Error>)
        ensures
            final(self).count() == old(self).count(),
            final(self).updates_id() == old(self).updates_id(),
            final(self).version() == old(self).version(),
            final(self).stored_keypair() == Some(
                match old(self).stored_keypair() {
                    Some(k) => k,
                    None => (generated.version@, generated.der@),
                },
            ),
            match r {
                Ok(k) => final(self).stored_keypair() == Some((k.version@, k.der@))
                    && keypair_valid(k.version@, k.der@),
                Err(e) => e == Error::BadDatabase(Reason::InvalidKeys) && !keypair_valid(
                    final(self).stored_keypair().unwrap().0,
                    final(self).stored_keypair().unwrap().1,
                ),
            },
    {
        if self.keypair.is_none() {
            self.keypair = Some(generated);
        }
        match &self.keypair {
            Some(k) => {
                if is_keypair(k) {
                    Ok(Keypair { version: k.version.clone(), der: k.der.clone() })
                } else {
                    Err(Error::BadDatabase(Reason::InvalidKeys))
                }
            },
            None => Err(Error::BadDatabase(Reason::InvalidKeys)),
        }
    }

    /// How full the caches of the server are.
    pub fn memory_usage(&self, caches: &Caches, timeline: &Service) -> (r: CacheUsage)
        requires
            caches.wf(),
            timeline.wf(),
        ensures
            r.auth_chain_cache == caches.auth_chains().dom().len(),
            r.max_auth_chain_cache == caches.auth_chain_limit(),
            r.appservice_in_room_cache == caches.appservice_rooms().len(),
            r.lasttimelinecount_cache == timeline.last_counts().dom().len(),
    {
        caches.memory_usage(timeline)
    }

    /// Empties caches, more of them the larger `amount` is: above 1 the auth
    /// chain cache, which stays as large as it was made; above 2 also what
    /// is held about application services in rooms; above 3 also the
    /// remembered latest positions of the timeline.
    pub fn clear_caches(&self, caches: &mut Caches, timeline: &mut Service, amount: u32)
        requires
            old(caches).wf(),
            old(timeline).wf(),
        ensures
            final(caches).wf(),
            final(timeline).wf(),
            final(caches).auth_chain_limit() == old(caches).auth_chain_limit(),
            final(caches).auth_chains() == (if amount > 1 {
                Map::<Seq<u64>, Seq<u64>>::empty()
            } else {
                old(caches).auth_chains()
            }),
            final(caches).appservice_rooms() == (if amount > 2 {
                Set::<Seq<char>>::empty()
            } else {
                old(caches).appservice_rooms()
            }),
            final(timeline).last_counts() == (if amount > 3 {
                Map::<Seq<char>, PduCount>::empty()
            } else {
                old(timeline).last_counts()
            }),
            final(timeline).stored() == old(timeline).stored(),
            final(timeline).positions() == old(timeline).positions(),
            final(timeline).outliers() == old(timeline).outliers(),
            final(timeline).insert_gate() == old(timeline).insert_gate(),
    {
        caches.clear_caches(timeline, amount);
    }

    /// Adds the keys that `origin` published to what `keys` holds for it, a
    /// new key taking the place of a stored one with the same identifier,
    /// and returns the keys that verify what `origin` signed.
    pub fn add_signing_key(
        &self,
        keys: &mut crate::signing_keys::Data,
        origin: &String,
        new_keys: ServerSigningKeys,
    ) -> (r: Result<StrMap<String>, Error>)
        requires
            old(keys).wf(),
        ensures
            final(keys).wf(),
            final(keys).valid_keys(origin@) == extended(
                old(keys).valid_keys(origin@),
                key_list(new_keys.verify_keys@),
            ),
            final(keys).old_keys(origin@) == extended(
                old(keys).old_keys(origin@),
                old_key_list(new_keys.old_verify_keys@),
            ),
            forall|other: Seq<char>|
                other != origin@ ==> #[trigger] final(keys).valid_keys(other) == old(
                    keys,
                ).valid_keys(other),
            forall|other: Seq<char>|
                other != origin@ ==> #[trigger] final(keys).old_keys(other) == old(keys).old_keys(
                    other,
                ),
            r matches Ok(tree) && tree.wf() && key_texts(tree@) == usable(
                final(keys).valid_keys(origin@),
                final(keys).old_keys(origin@),
            ),
    {
        keys.add_signing_key(origin, new_keys)
    }

    /// The keys that verify what `origin` signed, from what `keys` holds:
    /// none for a server that nothing is stored for.
    pub fn signing_keys_for(&self, keys: &crate::signing_keys::Data, origin: &String) -> (r: Result<
        StrMap<String>,
        Error,
    >)
        requires
            keys.wf(),
        ensures
            r matches Ok(tree) && tree.wf() && key_texts(tree@) == usable(
                keys.valid_keys(origin@),
                keys.old_keys(origin@),
            ),
    {
        keys.signing_keys_for(origin)
    }

    /// Forgets the stored signing key pair.
    pub fn remove_keypair(&mut self) -> (r: Result<(), Error>)
        ensures
            r.is_ok(),
            final(self).stored_keypair().is_none(),
            final(self).count() == old(self).count(),
            final(self).updates_id() == old(self).updates_id(),
            final(self).version() == old(self).version(),
    {
        self.keypair = None;
        Ok(())
    }
}

} // verus!
