//! The signing keys of other servers, as they were fetched.

use crate::error::Error;
use crate::keymap::StrMap;
use vstd::prelude::*;

verus! {

/// A key that a server signed with and that is no longer valid.
#[derive(Debug)]
pub struct OldVerifyKey {
    /// When the key expired, in milliseconds since the epoch.
    pub expired_ts: u64,
    /// The public key, in base64.
    pub key: String,
}

/// The signing keys that a server published: the valid ones and the expired
/// ones, each under the identifier of the key. Where a list names an
/// identifier twice, the later entry counts.
#[derive(Debug)]
pub struct ServerSigningKeys {
    pub verify_keys: Vec<(String, String)>,
    pub old_verify_keys: Vec<(String, OldVerifyKey)>,
}

/// A list of valid keys as mathematical values.
pub open spec fn key_list(v: Seq<(String, String)>) -> Seq<(Seq<char>, Seq<char>)> {
    Seq::new(v.len(), |i: int| (v[i].0@, v[i].1@))
}

/// A list of expired keys as mathematical values.
pub open spec fn old_key_list(v: Seq<(String, OldVerifyKey)>) -> Seq<
    (Seq<char>, (u64, Seq<char>)),
> {
    Seq::new(v.len(), |i: int| (v[i].0@, (v[i].1.expired_ts, v[i].1.key@)))
}

/// A map with the entries of a list put in, one after the other.
pub open spec fn extended<V>(m: Map<Seq<char>, V>, adds: Seq<(Seq<char>, V)>) -> Map<Seq<char>, V>
    decreases adds.len(),
{
    if adds.len() == 0 {
        m
    } else {
        extended(m, adds.drop_last()).insert(adds.last().0, adds.last().1)
    }
}

/// The valid keys of a table as mathematical values.
pub open spec fn key_texts(m: Map<Seq<char>, String>) -> Map<Seq<char>, Seq<char>> {
    Map::new(|k: Seq<char>| m.contains_key(k), |k: Seq<char>| m[k]@)
}

/// The expired keys of a table as mathematical values.
pub open spec fn old_key_texts(m: Map<Seq<char>, OldVerifyKey>) -> Map<Seq<char>, (u64, Seq<char>)> {
    Map::new(|k: Seq<char>| m.contains_key(k), |k: Seq<char>| (m[k].expired_ts, m[k].key@))
}

/// The keys that verify what a server signed: its valid keys and its
/// expired keys; where both hold a key under one identifier, the expired
/// key is the one that counts.
pub open spec fn usable(
    valid: Map<Seq<char>, Seq<char>>,
    old: Map<Seq<char>, (u64, Seq<char>)>,
) -> Map<Seq<char>, Seq<char>> {
    Map::new(
        |k: Seq<char>| valid.contains_key(k) || old.contains_key(k),
        |k: Seq<char>|
            if old.contains_key(k) {
                old[k].1
            } else {
                valid[k]
            },
    )
}

/// A list extended by `x` holds what the list holds, and `x`.
proof fn push_contains(s: Seq<Seq<char>>, x: Seq<char>, k: Seq<char>)
    ensures
        s.push(x).contains(k) <==> (s.contains(k) || k == x),
{
    let t = s.push(x);
    if t.contains(k) {
        let i = choose|i: int| 0 <= i < t.len() && t[i] == k;
        if i < s.len() {
            assert(s[i] == k);
        }
    }
    if s.contains(k) {
        let i = choose|i: int| 0 <= i < s.len() && s[i] == k;
        assert(t[i] == k);
    }
    if k == x {
        assert(t[s.len() as int] == k);
    }
}

/// The keys of one server.
pub struct Keys {
    verify_keys: StrMap<String>,
    old_verify_keys: StrMap<OldVerifyKey>,
}

impl Keys {
    /// The tables are well formed.
    pub closed spec fn wf(&self) -> bool {
        self.verify_keys.wf() && self.old_verify_keys.wf()
    }

    /// The valid keys.
    pub closed spec fn valid(&self) -> Map<Seq<char>, Seq<char>> {
        key_texts(self.verify_keys@)
    }

    /// The expired keys.
    pub closed spec fn expired(&self) -> Map<Seq<char>, (u64, Seq<char>)> {
        old_key_texts(self.old_verify_keys@)
    }

    /// No keys.
    pub fn new() -> (r: Keys)
        ensures
            r.wf(),
            r.valid() == Map::<Seq<char>, Seq<char>>::empty(),
            r.expired() == Map::<Seq<char>, (u64, Seq<char>)>::empty(),
    {
        let r = Keys { verify_keys: StrMap::new(), old_verify_keys: StrMap::new() };
        assert(r.valid() =~= Map::<Seq<char>, Seq<char>>::empty());
        assert(r.expired() =~= Map::<Seq<char>, (u64, Seq<char>)>::empty());
        r
    }

    /// Puts the published keys in, a new key taking the place of a stored
    /// one with the same identifier.
    pub fn extend(&mut self, new_keys: &ServerSigningKeys)
        requires
            old(self).wf(),
        ensures
            final(self).wf(),
            final(self).valid() == extended(old(self).valid(), key_list(new_keys.verify_keys@)),
            final(self).expired() == extended(
                old(self).expired(),
                old_key_list(new_keys.old_verify_keys@),
            ),
    {
        let ghost adds = key_list(new_keys.verify_keys@);
        let ghost base = self.valid();
        let mut i: usize = 0;
        assert(adds.take(0) =~= Seq::<(Seq<char>, Seq<char>)>::empty());
        while i < new_keys.verify_keys.len()
            invariant
                i <= new_keys.verify_keys@.len(),
                adds == key_list(new_keys.verify_keys@),
                self.wf(),
                self.expired() == old(self).expired(),
                self.valid() == extended(base, adds.take(i as int)),
            decreases new_keys.verify_keys@.len() - i,
        {
            proof {
                assert(adds.take(i as int + 1).drop_last() =~= adds.take(i as int));
                assert(adds.take(i as int + 1).last() == adds[i as int]);
            }
            let ghost before = self.valid();
            self.verify_keys.insert(
                new_keys.verify_keys[i].0.clone(),
                new_keys.verify_keys[i].1.clone(),
            );
            assert(self.valid() =~= before.insert(adds[i as int].0, adds[i as int].1));
            i += 1;
        }
        assert(adds.take(new_keys.verify_keys@.len() as int) =~= adds);
        let ghost old_adds = old_key_list(new_keys.old_verify_keys@);
        let ghost old_base = self.expired();
        let mut i: usize = 0;
        assert(old_adds.take(0) =~= Seq::<(Seq<char>, (u64, Seq<char>))>::empty());
        while i < new_keys.old_verify_keys.len()
            invariant
                i <= new_keys.old_verify_keys@.len(),
                old_adds == old_key_list(new_keys.old_verify_keys@),
                self.wf(),
                self.valid() == extended(base, adds),
                self.expired() == extended(old_base, old_adds.take(i as int)),
            decreases new_keys.old_verify_keys@.len() - i,
        {
            proof {
                assert(old_adds.take(i as int + 1).drop_last() =~= old_adds.take(i as int));
                assert(old_adds.take(i as int + 1).last() == old_adds[i as int]);
            }
            let ghost before = self.expired();
            self.old_verify_keys.insert(
                new_keys.old_verify_keys[i].0.clone(),
                OldVerifyKey {
                    expired_ts: new_keys.old_verify_keys[i].1.expired_ts,
                    key: new_keys.old_verify_keys[i].1.key.clone(),
                },
            );
            assert(self.expired() =~= before.insert(old_adds[i as int].0, old_adds[i as int].1));
            i += 1;
        }
        assert(old_adds.take(new_keys.old_verify_keys@.len() as int) =~= old_adds);
    }

    /// The keys that verify what the server signed, as a table.
    pub fn usable_keys(&self) -> (r: StrMap<String>)
        requires
            self.wf(),
        ensures
            r.wf(),
            key_texts(r@) == usable(self.valid(), self.expired()),
    {
        let mut tree: StrMap<String> = StrMap::new();
        let ghost vk = self.verify_keys.key_seq();
        let ghost vv = self.verify_keys.val_seq();
        let ghost ok = self.old_verify_keys.key_seq();
        let ghost ov = self.old_verify_keys.val_seq();
        proof {
            self.verify_keys.wf_facts();
            self.old_verify_keys.wf_facts();
            assert(vk.take(0) =~= Seq::<Seq<char>>::empty());
        }
        let n = self.verify_keys.len();
        let mut i: usize = 0;
        while i < n
            invariant
                i <= n,
                n == vk.len(),
                self.wf(),
                vk == self.verify_keys.key_seq(),
                vv == self.verify_keys.val_seq(),
                vk.len() == vv.len(),
                vk.no_duplicates(),
                tree.wf(),
                forall|k: Seq<char>| #[trigger] tree@.contains_key(k) <==> vk.take(i as int).contains(k),
                forall|j: int| 0 <= j < i ==> tree@[#[trigger] vk[j]]@ == vv[j]@,
            decreases n - i,
        {
            let key = self.verify_keys.key_at(i);
            let val = self.verify_keys.value_at(i);
            let ghost before = tree@;
            tree.insert(key.clone(), val.clone());
            proof {
                assert(vk.take(i as int + 1) =~= vk.take(i as int).push(vk[i as int]));
                assert forall|k: Seq<char>| #[trigger]
                    tree@.contains_key(k) <==> vk.take(i as int + 1).contains(k) by {
                    push_contains(vk.take(i as int), vk[i as int], k);
                    assert(before.contains_key(k) <==> vk.take(i as int).contains(k));
                }
                assert forall|j: int| 0 <= j < i + 1 implies tree@[#[trigger] vk[j]]@ == vv[j]@ by {
                    if j < i {
                        assert(vk[j] != vk[i as int]);
                        assert(before[vk[j]]@ == vv[j]@);
                    }
                }
            }
            i += 1;
        }
        proof {
            assert(vk.take(n as int) =~= vk);
            assert(ok.take(0) =~= Seq::<Seq<char>>::empty());
        }
        let m = self.old_verify_keys.len();
        let mut i: usize = 0;
        while i < m
            invariant
                i <= m,
                m == ok.len(),
                self.wf(),
                vk == self.verify_keys.key_seq(),
                vv == self.verify_keys.val_seq(),
                vk.len() == vv.len(),
                ok == self.old_verify_keys.key_seq(),
                ov == self.old_verify_keys.val_seq(),
                ok.len() == ov.len(),
                ok.no_duplicates(),
                tree.wf(),
                forall|k: Seq<char>| #[trigger]
                    tree@.contains_key(k) <==> (vk.contains(k) || ok.take(i as int).contains(k)),
                forall|j: int| 0 <= j < i ==> tree@[#[trigger] ok[j]]@ == ov[j].key@,
                forall|j: int|
                    0 <= j < vk.len() && !ok.take(i as int).contains(#[trigger] vk[j])
                        ==> tree@[vk[j]]@ == vv[j]@,
            decreases m - i,
        {
            let key = self.old_verify_keys.key_at(i);
            let val = self.old_verify_keys.value_at(i);
            let ghost before = tree@;
            tree.insert(key.clone(), val.key.clone());
            proof {
                assert(ok.take(i as int + 1) =~= ok.take(i as int).push(ok[i as int]));
                assert forall|k: Seq<char>| #[trigger]
                    tree@.contains_key(k) <==> (vk.contains(k) || ok.take(i as int + 1).contains(
                        k,
                    )) by {
                    push_contains(ok.take(i as int), ok[i as int], k);
                    assert(before.contains_key(k) <==> (vk.contains(k) || ok.take(
                        i as int,
                    ).contains(k)));
                }
                assert forall|j: int| 0 <= j < i + 1 implies tree@[#[trigger] ok[j]]@
                    == ov[j].key@ by {
                    if j < i {
                        assert(ok[j] != ok[i as int]);
                        assert(before[ok[j]]@ == ov[j].key@);
                    }
                }
                assert forall|j: int|
                    0 <= j < vk.len() && !ok.take(i as int + 1).contains(
                        #[trigger] vk[j],
                    ) implies tree@[vk[j]]@ == vv[j]@ by {
                    push_contains(ok.take(i as int), ok[i as int], vk[j]);
                    assert(vk[j] != ok[i as int]);
                    assert(before[vk[j]]@ == vv[j]@);
                }
            }
            i += 1;
        }
        proof {
            assert(ok.take(m as int) =~= ok);
            let want = usable(self.valid(), self.expired());
            let got = key_texts(tree@);
            assert forall|k: Seq<char>| got.contains_key(k) <==> want.contains_key(k) by {
                assert(tree@.contains_key(k) <==> (vk.contains(k) || ok.contains(k)));
                assert(self.verify_keys.has(k) <==> vk.contains(k));
                assert(self.old_verify_keys.has(k) <==> ok.contains(k));
            }
            assert forall|k: Seq<char>| got.contains_key(k) implies got[k] == want[k] by {
                assert(tree@.contains_key(k) <==> (vk.contains(k) || ok.contains(k)));
                if ok.contains(k) {
                    let j = choose|j: int| 0 <= j < ok.len() && ok[j] == k;
                    assert(tree@[ok[j]]@ == ov[j].key@);
                    assert(self.old_verify_keys.has(ok[j]));
                    assert(self.old_verify_keys.at(ok[j]) == ov[j]);
                } else {
                    let j = choose|j: int| 0 <= j < vk.len() && vk[j] == k;
                    assert(!ok.contains(vk[j]));
                    assert(tree@[vk[j]]@ == vv[j]@);
                    assert(self.verify_keys.has(vk[j]));
                    assert(self.verify_keys.at(vk[j]) == vv[j]);
                }
            }
            assert(got =~= want);
        }
        tree
    }
}

/// The table of the signing keys of other servers.
pub struct Data {
    server_signingkeys: StrMap<Keys>,
}

impl Data {
    /// The tables are well formed.
    pub closed spec fn wf(&self) -> bool {
        &&& self.server_signingkeys.wf()
        &&& forall|origin: Seq<char>| #[trigger]
            self.server_signingkeys@.contains_key(origin) ==> self.server_signingkeys@[origin].wf()
    }

    /// The valid keys that are stored for `origin`; none for a server that
    /// nothing is stored for.
    pub closed spec fn valid_keys(&self, origin: Seq<char>) -> Map<Seq<char>, Seq<char>> {
        if self.server_signingkeys@.contains_key(origin) {
            self.server_signingkeys@[origin].valid()
        } else {
            Map::empty()
        }
    }

    /// The expired keys that are stored for `origin`.
    pub closed spec fn old_keys(&self, origin: Seq<char>) -> Map<Seq<char>, (u64, Seq<char>)> {
        if self.server_signingkeys@.contains_key(origin) {
            self.server_signingkeys@[origin].expired()
        } else {
            Map::empty()
        }
    }

    /// An empty table.
    pub fn new() -> (r: Self)
        ensures
            r.wf(),
            forall|origin: Seq<char>| #[trigger]
                r.valid_keys(origin) == Map::<Seq<char>, Seq<char>>::empty(),
            forall|origin: Seq<char>| #[trigger]
                r.old_keys(origin) == Map::<Seq<char>, (u64, Seq<char>)>::empty(),
    {
        Data { server_signingkeys: StrMap::new() }
    }

    /// The keys that verify what `origin` signed, from what is stored: none
    /// for a server that nothing is stored for.
    pub fn signing_keys_for(&self, origin: &String) -> (r: Result<StrMap<String>, Error>)
        requires
            self.wf(),
        ensures
            r matches Ok(tree) && tree.wf() && key_texts(tree@) == usable(
                self.valid_keys(origin@),
                self.old_keys(origin@),
            ),
    {
        match self.server_signingkeys.get(origin) {
            Some(keys) => {
                assert(self.server_signingkeys@.contains_key(origin@));
                Ok(keys.usable_keys())
            },
            None => {
                let tree: StrMap<String> = StrMap::new();
                assert(key_texts(tree@) =~= usable(
                    self.valid_keys(origin@),
                    self.old_keys(origin@),
                ));
                Ok(tree)
            },
        }
    }

    /// Adds the keys that `origin` published to what is stored for it, a
    /// new key taking the place of a stored one with the same identifier,
    /// and returns the keys that verify what `origin` signed.
    pub fn add_signing_key(&mut self, origin: &String, new_keys: ServerSigningKeys) -> (r: Result<
        StrMap<String>,
        Error,
    >)
        requires
            old(self).wf(),
        ensures
            final(self).wf(),
            final(self).valid_keys(origin@) == extended(
                old(self).valid_keys(origin@),
                key_list(new_keys.verify_keys@),
            ),
            final(self).old_keys(origin@) == extended(
                old(self).old_keys(origin@),
                old_key_list(new_keys.old_verify_keys@),
            ),
            forall|other: Seq<char>|
                other != origin@ ==> #[trigger] final(self).valid_keys(other) == old(
                    self,
                ).valid_keys(other),
            forall|other: Seq<char>|
                other != origin@ ==> #[trigger] final(self).old_keys(other) == old(self).old_keys(
                    other,
                ),
            r matches Ok(tree) && tree.wf() && key_texts(tree@) == usable(
                final(self).valid_keys(origin@),
                final(self).old_keys(origin@),
            ),
    {
        let ghost stored = self.server_signingkeys@;
        let mut keys = match self.server_signingkeys.remove(origin) {
            Some(k) => {
                assert(stored.contains_key(origin@));
                k
            },
            None => Keys::new(),
        };
        keys.extend(&new_keys);
        let tree = keys.usable_keys();
        self.server_signingkeys.insert(origin.clone(), keys);
        proof {
            assert forall|o: Seq<char>| #[trigger]
                self.server_signingkeys@.contains_key(o) implies self.server_signingkeys@[o].wf() by {
                if o != origin@ {
                    assert(stored.contains_key(o));
                }
            }
        }
        Ok(tree)
    }
}

} // verus!
