//! What the explorer keeps of identities and their private keys, and the
//! decisions of the identity tasks.
use vstd::prelude::*;

use crate::codec::{
    base58_text, bs58_encode, bytes_equal, hex_bytes, hex_decode, hex_error_message,
    is_hex_text, lowercase, sha256, sha256_digest, to_lowercase,
};
use crate::text::{contains_text, str_contains};
use crate::errors::BackendError;
use crate::wallet::WalletError;
use vstd::string::StringSliceAdditionalSpecFns;

verus! {

/// A private key that the explorer knows for a key of an identity.
pub struct IdentityKeyEntry {
    /// The identity's 32-byte identifier.
    pub identity_id: Vec<u8>,
    /// The id of the identity's public key.
    pub key_id: u32,
    /// The private key's bytes.
    pub private_key: Vec<u8>,
}

/// An identity that the explorer knows, under its identifier.
pub struct KnownIdentity<I> {
    /// The identity's 32-byte identifier.
    pub id: Vec<u8>,
    /// The identity itself.
    pub identity: I,
}

/// The identities that the explorer knows, their private keys and the identity
/// that is loaded.
pub struct IdentityBook<I> {
    /// Known identities, one per identifier.
    pub known: Vec<KnownIdentity<I>>,
    /// Known private keys, one per identifier and key id.
    pub private_keys: Vec<IdentityKeyEntry>,
    /// The loaded identity, if any.
    pub loaded: Option<KnownIdentity<I>>,
}

/// The private keys as plain values: identifier, key id and key bytes.
pub open spec fn key_entries(keys: Seq<IdentityKeyEntry>) -> Seq<(Seq<u8>, u32, Seq<u8>)> {
    keys.map_values(|e: IdentityKeyEntry| (e.identity_id@, e.key_id, e.private_key@))
}

/// The identifiers of known identities, in order.
pub open spec fn known_ids<I>(known: Seq<KnownIdentity<I>>) -> Seq<Seq<u8>> {
    known.map_values(|e: KnownIdentity<I>| e.id@)
}

/// Identifiers other than `id`.
pub open spec fn id_differs(id: Seq<u8>) -> spec_fn(Seq<u8>) -> bool {
    |k: Seq<u8>| k != id
}

/// Known identities other than `id`.
pub open spec fn identity_not<I>(id: Seq<u8>) -> spec_fn(KnownIdentity<I>) -> bool {
    |e: KnownIdentity<I>| e.id@ != id
}

/// Key entries of identities other than `id`.
pub open spec fn entry_not_of(id: Seq<u8>) -> spec_fn((Seq<u8>, u32, Seq<u8>)) -> bool {
    |e: (Seq<u8>, u32, Seq<u8>)| e.0 != id
}

/// Public keys of an identity as plain values: key id and public key hash.
pub open spec fn key_hashes(keys: Seq<(u32, Vec<u8>)>) -> Seq<(u32, Seq<u8>)> {
    keys.map_values(|k: (u32, Vec<u8>)| (k.0, k.1@))
}

/// Private keys to add as plain values: the hash of each one's public key and its
/// bytes.
pub open spec fn hashed_keys(keys: Seq<(Vec<u8>, Vec<u8>)>) -> Seq<(Seq<u8>, Seq<u8>)> {
    keys.map_values(|k: (Vec<u8>, Vec<u8>)| (k.0@, k.1@))
}

/// The id of the first public key, in key order, whose hash is `hash`.
pub open spec fn key_id_for(identity_keys: Seq<(u32, Seq<u8>)>, hash: Seq<u8>) -> Option<u32>
    decreases identity_keys.len(),
{
    if identity_keys.len() == 0 {
        None
    } else if identity_keys[0].1 == hash {
        Some(identity_keys[0].0)
    } else {
        key_id_for(identity_keys.drop_first(), hash)
    }
}

/// `after` is `before` with `identity` kept under `id`: in place of the
/// identity known under `id`, or after the others where none is.
pub open spec fn remembers<I>(
    before: Seq<KnownIdentity<I>>,
    after: Seq<KnownIdentity<I>>,
    id: Seq<u8>,
    identity: I,
) -> bool {
    if known_ids(before).contains(id) {
        let j = known_ids(before).index_of(id);
        &&& after.len() == before.len()
        &&& after[j].id@ == id
        &&& after[j].identity == identity
        &&& forall|k: int| 0 <= k < before.len() && k != j ==> after[k] == before[k]
    } else {
        &&& after.len() == before.len() + 1
        &&& after.last().id@ == id
        &&& after.last().identity == identity
        &&& after.drop_last() == before
    }
}

/// The bytes of the last of `keys` given for key id `key_id`.
pub open spec fn last_key_of(keys: Seq<(u32, Seq<u8>)>, key_id: u32) -> Option<Seq<u8>>
    decreases keys.len(),
{
    if keys.len() == 0 {
        None
    } else if keys.last().0 == key_id {
        Some(keys.last().1)
    } else {
        last_key_of(keys.drop_last(), key_id)
    }
}

/// The bytes of the last of `keys` that belongs to public key `key_id`.
pub open spec fn last_private_for(
    identity_keys: Seq<(u32, Seq<u8>)>,
    keys: Seq<(Seq<u8>, Seq<u8>)>,
    key_id: u32,
) -> Option<Seq<u8>>
    decreases keys.len(),
{
    if keys.len() == 0 {
        None
    } else if key_id_for(identity_keys, keys.last().0) == Some(key_id) {
        Some(keys.last().1)
    } else {
        last_private_for(identity_keys, keys.drop_last(), key_id)
    }
}

/// The id of the first public key whose hash is `hash`.
pub fn find_key_id(identity_keys: &Vec<(u32, Vec<u8>)>, hash: &Vec<u8>) -> (r: Option<u32>)
    ensures
        r == key_id_for(key_hashes(identity_keys@), hash@),
{
    let ghost ks = key_hashes(identity_keys@);
    let mut i: usize = 0;
    assert(ks.skip(0) =~= ks);
    while i < identity_keys.len()
        invariant
            ks == key_hashes(identity_keys@),
            i <= identity_keys@.len(),
            key_id_for(ks, hash@) == key_id_for(ks.skip(i as int), hash@),
        decreases identity_keys@.len() - i,
    {
        proof {
            assert(ks.skip(i as int).drop_first() =~= ks.skip(i + 1));
        }
        if bytes_equal(&identity_keys[i].1, hash) {
            return Some(identity_keys[i].0);
        }
        i = i + 1;
    }
    None
}

impl<I> IdentityBook<I> {
    /// No identifier is known twice, and no key twice for the same identity.
    pub open spec fn wf(&self) -> bool {
        &&& forall|a: int, b: int|
            0 <= a < b < self.known@.len() ==> self.known@[a].id@ != self.known@[b].id@
        &&& forall|a: int, b: int|
            0 <= a < b < self.private_keys@.len() ==> !(self.private_keys@[a].identity_id@
                == self.private_keys@[b].identity_id@ && self.private_keys@[a].key_id
                == self.private_keys@[b].key_id)
    }

    /// Whether any private key is known for the identity `id`.
    pub open spec fn spec_has_keys_for(&self, id: Seq<u8>) -> bool {
        exists|k: int|
            0 <= k < self.private_keys@.len() && self.private_keys@[k].identity_id@ == id
    }

    /// Whether any private key is known for the identity `id`, whatever the key.
    pub fn has_private_keys_for(&self, id: &Vec<u8>) -> (r: bool)
        ensures
            r == self.spec_has_keys_for(id@),
    {
        let mut i: usize = 0;
        while i < self.private_keys.len()
            invariant
                i <= self.private_keys@.len(),
                forall|k: int| 0 <= k < i ==> self.private_keys@[k].identity_id@ != id@,
            decreases self.private_keys@.len() - i,
        {
            if bytes_equal(&self.private_keys[i].identity_id, id) {
                return true;
            }
            i = i + 1;
        }
        false
    }

    /// The private key known for key `key_id` of identity `id`.
    pub fn private_key_for(&self, id: &Vec<u8>, key_id: u32) -> (r: Option<&Vec<u8>>)
        requires
            self.wf(),
        ensures
            r is None <==> !exists|k: int|
                0 <= k < self.private_keys@.len() && self.private_keys@[k].identity_id@ == id@
                    && self.private_keys@[k].key_id == key_id,
            r matches Some(key) ==> exists|k: int|
                0 <= k < self.private_keys@.len() && self.private_keys@[k].identity_id@ == id@
                    && self.private_keys@[k].key_id == key_id && self.private_keys@[k].private_key@
                    == key@,
    {
        let mut i: usize = 0;
        while i < self.private_keys.len()
            invariant
                i <= self.private_keys@.len(),
                forall|k: int|
                    0 <= k < i ==> !(self.private_keys@[k].identity_id@ == id@
                        && self.private_keys@[k].key_id == key_id),
            decreases self.private_keys@.len() - i,
        {
            if self.private_keys[i].key_id == key_id && bytes_equal(
                &self.private_keys[i].identity_id,
                id,
            ) {
                return Some(&self.private_keys[i].private_key);
            }
            i = i + 1;
        }
        None
    }

    /// Records `private_key` for key `key_id` of identity `id`, replacing the key
    /// known for them before, if any.
    pub fn insert_private_key(&mut self, id: Vec<u8>, key_id: u32, private_key: Vec<u8>)
        requires
            old(self).wf(),
        ensures
            final(self).wf(),
            final(self).known == old(self).known,
            final(self).loaded == old(self).loaded,
            key_entries(final(self).private_keys@).contains((id@, key_id, private_key@)),
            forall|e: (Seq<u8>, u32, Seq<u8>)|
                !(e.0 == id@ && e.1 == key_id) ==> (key_entries(
                    final(self).private_keys@,
                ).contains(e) <==> key_entries(old(self).private_keys@).contains(e)),
    {
        let ghost before = key_entries(self.private_keys@);
        let mut i: usize = 0;
        let mut found: bool = false;
        while i < self.private_keys.len() && !found
            invariant
                self.private_keys@ == old(self).private_keys@,
                i <= self.private_keys@.len(),
                found ==> i < self.private_keys@.len() && self.private_keys@[i as int].identity_id@
                    == id@ && self.private_keys@[i as int].key_id == key_id,
                forall|k: int|
                    0 <= k < i && !(found && k == i) ==> !(self.private_keys@[k].identity_id@ == id@
                        && self.private_keys@[k].key_id == key_id),
            decreases self.private_keys@.len() - i + (if found { 0int } else { 1int }),
        {
            if self.private_keys[i].key_id == key_id && bytes_equal(
                &self.private_keys[i].identity_id,
                &id,
            ) {
                found = true;
            } else {
                i = i + 1;
            }
        }
        let ghost pos = i;
        let ghost old_keys = self.private_keys@;
        let entry = IdentityKeyEntry { identity_id: id, key_id, private_key };
        if found {
            self.private_keys.set(i, entry);
            proof {
                let after = key_entries(self.private_keys@);
                assert(after[pos as int] == (id@, key_id, private_key@));
                assert forall|e: (Seq<u8>, u32, Seq<u8>)|
                    !(e.0 == id@ && e.1 == key_id) implies (after.contains(e)
                    <==> before.contains(e)) by {
                    if after.contains(e) {
                        let q = choose|q: int| 0 <= q < after.len() && after[q] == e;
                        assert(q != pos);
                        assert(before[q] == e);
                    }
                    if before.contains(e) {
                        let q = choose|q: int| 0 <= q < before.len() && before[q] == e;
                        assert(q != pos);
                        assert(after[q] == e);
                    }
                }
                assert forall|a: int, b: int|
                    0 <= a < b < self.private_keys@.len() implies !(
                    self.private_keys@[a].identity_id@ == self.private_keys@[b].identity_id@
                        && self.private_keys@[a].key_id == self.private_keys@[b].key_id) by {
                    assert(self.private_keys@[a].identity_id@ == old_keys[a].identity_id@);
                    assert(self.private_keys@[b].identity_id@ == old_keys[b].identity_id@);
                }
            }
        } else {
            self.private_keys.push(entry);
            proof {
                let after = key_entries(self.private_keys@);
                assert(after[pos as int] == (id@, key_id, private_key@));
                assert forall|e: (Seq<u8>, u32, Seq<u8>)|
                    !(e.0 == id@ && e.1 == key_id) implies (after.contains(e)
                    <==> before.contains(e)) by {
                    if after.contains(e) {
                        let q = choose|q: int| 0 <= q < after.len() && after[q] == e;
                        assert(q != pos);
                        assert(before[q] == e);
                    }
                    if before.contains(e) {
                        let q = choose|q: int| 0 <= q < before.len() && before[q] == e;
                        assert(after[q] == e);
                    }
                }
                assert forall|a: int, b: int|
                    0 <= a < b < self.private_keys@.len() implies !(
                    self.private_keys@[a].identity_id@ == self.private_keys@[b].identity_id@
                        && self.private_keys@[a].key_id == self.private_keys@[b].key_id) by {
                    if b == pos {
                        assert(self.private_keys@[a] == old_keys[a]);
                    }
                }
            }
        }
    }

    /// Keeps `identity` among the known identities under `id`: in place of the
    /// one known under `id`, or after the others where none is.
    pub fn remember_identity(&mut self, id: &Vec<u8>, identity: I)
        requires
            old(self).wf(),
        ensures
            final(self).wf(),
            final(self).private_keys == old(self).private_keys,
            final(self).loaded == old(self).loaded,
            remembers(old(self).known@, final(self).known@, id@, identity),
    {
        let ghost ids = known_ids(self.known@);
        let mut i: usize = 0;
        while i < self.known.len()
            invariant
                self.known@ == old(self).known@,
                self.private_keys == old(self).private_keys,
                self.loaded == old(self).loaded,
                ids == known_ids(self.known@),
                i <= self.known@.len(),
                forall|j: int| 0 <= j < i ==> ids[j] != id@,
            ensures
                self.known@ == old(self).known@,
                self.private_keys == old(self).private_keys,
                self.loaded == old(self).loaded,
                i <= self.known@.len(),
                forall|j: int| 0 <= j < i ==> ids[j] != id@,
                i < self.known@.len() ==> ids[i as int] == id@,
            decreases self.known@.len() - i,
        {
            if bytes_equal(&self.known[i].id, id) {
                break;
            }
            i = i + 1;
        }
        let stored_id = id.clone();
        proof {
            assert(stored_id@ =~= id@);
        }
        let entry = KnownIdentity { id: stored_id, identity };
        if i < self.known.len() {
            proof {
                assert(ids.contains(id@));
                let j = ids.index_of(id@);
                assert(ids[j] == id@);
                if j != i {
                    assert(old(self).known@[j].id@ == old(self).known@[i as int].id@);
                }
            }
            self.known.set(i, entry);
        } else {
            proof {
                assert(!ids.contains(id@));
            }
            self.known.push(entry);
            proof {
                assert(self.known@.drop_last() =~= old(self).known@);
                assert forall|a: int, b: int|
                    0 <= a < b < self.known@.len() implies self.known@[a].id@ != self.known@[b].id@ by {
                    if b == self.known@.len() - 1 {
                        assert(ids[a] == self.known@[a].id@);
                    }
                }
            }
        }
    }

    /// Adds the private keys of identity `id`, given by key id; where a key id
    /// comes twice, the later key stays.
    pub fn add_private_keys(&mut self, id: &Vec<u8>, keys: &Vec<(u32, Vec<u8>)>)
        requires
            old(self).wf(),
        ensures
            final(self).wf(),
            final(self).known == old(self).known,
            final(self).loaded == old(self).loaded,
            forall|k: u32, p: Seq<u8>|
                last_key_of(key_hashes(keys@), k) == Some(p) ==> key_entries(
                    final(self).private_keys@,
                ).contains((id@, k, p)),
            forall|e: (Seq<u8>, u32, Seq<u8>)|
                (e.0 != id@ || last_key_of(key_hashes(keys@), e.1) is None) ==> (key_entries(
                    final(self).private_keys@,
                ).contains(e) <==> key_entries(old(self).private_keys@).contains(e)),
    {
        let ghost ks = key_hashes(keys@);
        let mut i: usize = 0;
        while i < keys.len()
            invariant
                ks == key_hashes(keys@),
                i <= keys@.len(),
                self.wf(),
                self.known == old(self).known,
                self.loaded == old(self).loaded,
                forall|k: u32, p: Seq<u8>|
                    last_key_of(ks.take(i as int), k) == Some(p) ==> key_entries(
                        self.private_keys@,
                    ).contains((id@, k, p)),
                forall|e: (Seq<u8>, u32, Seq<u8>)|
                    (e.0 != id@ || last_key_of(ks.take(i as int), e.1) is None) ==> (key_entries(
                        self.private_keys@,
                    ).contains(e) <==> key_entries(old(self).private_keys@).contains(e)),
            decreases keys@.len() - i,
        {
            let ghost before = key_entries(self.private_keys@);
            let k = keys[i].0;
            self.insert_private_key(id.clone(), k, keys[i].1.clone());
            proof {
                let t = ks.take(i + 1);
                assert(t.drop_last() =~= ks.take(i as int));
                assert(t.last() == (k, keys@[i as int].1@));
                assert forall|kk: u32, p: Seq<u8>|
                    last_key_of(t, kk) == Some(p) implies key_entries(
                        self.private_keys@,
                    ).contains((id@, kk, p)) by {
                    if kk == k {
                        assert(p == keys@[i as int].1@);
                    } else {
                        assert(last_key_of(ks.take(i as int), kk) == Some(p));
                        assert(before.contains((id@, kk, p)));
                    }
                }
                assert forall|e: (Seq<u8>, u32, Seq<u8>)|
                    (e.0 != id@ || last_key_of(t, e.1) is None) implies (key_entries(
                        self.private_keys@,
                    ).contains(e) <==> key_entries(old(self).private_keys@).contains(e)) by {
                    if e.0 == id@ {
                        assert(e.1 != k);
                        assert(last_key_of(ks.take(i as int), e.1) is None);
                    }
                }
            }
            i = i + 1;
        }
        proof {
            assert(ks.take(i as int) =~= ks);
        }
    }

    /// Loads an identity fetched under `id` (`loaded`) and keeps it among the
    /// known identities (`known`, the same identity).
    pub fn load_fetched_identity(&mut self, id: &Vec<u8>, loaded: I, known: I)
        requires
            old(self).wf(),
        ensures
            final(self).wf(),
            final(self).private_keys == old(self).private_keys,
            final(self).loaded matches Some(l) && l.id@ == id@ && l.identity == loaded,
            remembers(old(self).known@, final(self).known@, id@, known),
    {
        let loaded_id = id.clone();
        proof {
            assert(loaded_id@ =~= id@);
        }
        self.loaded = Some(KnownIdentity { id: loaded_id, identity: loaded });
        self.remember_identity(id, known);
    }

    /// Keeps a newly registered identity: it is loaded (`loaded`), known
    /// (`known`, the same identity) and its private keys, given by key id, are
    /// known.
    pub fn store_registered_identity(
        &mut self,
        id: &Vec<u8>,
        loaded: I,
        known: I,
        keys: &Vec<(u32, Vec<u8>)>,
    )
        requires
            old(self).wf(),
        ensures
            final(self).wf(),
            final(self).loaded matches Some(l) && l.id@ == id@ && l.identity == loaded,
            remembers(old(self).known@, final(self).known@, id@, known),
            forall|k: u32, p: Seq<u8>|
                last_key_of(key_hashes(keys@), k) == Some(p) ==> key_entries(
                    final(self).private_keys@,
                ).contains((id@, k, p)),
            forall|e: (Seq<u8>, u32, Seq<u8>)|
                (e.0 != id@ || last_key_of(key_hashes(keys@), e.1) is None) ==> (key_entries(
                    final(self).private_keys@,
                ).contains(e) <==> key_entries(old(self).private_keys@).contains(e)),
    {
        self.load_fetched_identity(id, loaded, known);
        self.add_private_keys(id, keys);
    }

    /// Adds private keys to identity `id`: each key goes to the first public key
    /// of the identity whose hash is the hash of the key's public key. The first
    /// key that matches no public key stops the work with an error; the keys
    /// before it stay added.
    pub fn add_private_keys_matching(
        &mut self,
        id: &Vec<u8>,
        identity_keys: &Vec<(u32, Vec<u8>)>,
        keys: &Vec<(Vec<u8>, Vec<u8>)>,
    ) -> (r: Result<(), WalletError>)
        requires
            old(self).wf(),
        ensures
            final(self).wf(),
            final(self).known == old(self).known,
            final(self).loaded == old(self).loaded,
            r is Ok <==> forall|i: int|
                0 <= i < keys@.len() ==> key_id_for(
                    key_hashes(identity_keys@),
                    #[trigger] keys@[i].0@,
                ) is Some,
            r matches Err(e) ==> exists|f: int|
                0 <= f < keys@.len() && key_id_for(key_hashes(identity_keys@), keys@[f].0@) is None
                    && (forall|j: int|
                    0 <= j < f ==> key_id_for(key_hashes(identity_keys@), #[trigger] keys@[j].0@)
                        is Some) && e.spec_message()
                    == "Public key hash derived from input private key does not match any identity public key"@
                    && (forall|k: u32, p: Seq<u8>|
                    last_private_for(key_hashes(identity_keys@), hashed_keys(keys@).take(f), k)
                        == Some(p) ==> key_entries(final(self).private_keys@).contains(
                        (id@, k, p),
                    )) && (forall|e: (Seq<u8>, u32, Seq<u8>)|
                    (e.0 != id@ || last_private_for(
                        key_hashes(identity_keys@),
                        hashed_keys(keys@).take(f),
                        e.1,
                    ) is None) ==> (key_entries(final(self).private_keys@).contains(e)
                        <==> key_entries(old(self).private_keys@).contains(e))),
            r is Ok ==> (forall|k: u32, p: Seq<u8>|
                last_private_for(key_hashes(identity_keys@), hashed_keys(keys@), k) == Some(p)
                    ==> key_entries(final(self).private_keys@).contains((id@, k, p))) && (forall|
                e: (Seq<u8>, u32, Seq<u8>),
            |
                (e.0 != id@ || last_private_for(key_hashes(identity_keys@), hashed_keys(keys@), e.1)
                    is None) ==> (key_entries(final(self).private_keys@).contains(e)
                    <==> key_entries(old(self).private_keys@).contains(e))),
    {
        let ghost ik = key_hashes(identity_keys@);
        let ghost hk = hashed_keys(keys@);
        let mut i: usize = 0;
        while i < keys.len()
            invariant
                ik == key_hashes(identity_keys@),
                hk == hashed_keys(keys@),
                i <= keys@.len(),
                self.wf(),
                self.known == old(self).known,
                self.loaded == old(self).loaded,
                forall|j: int| 0 <= j < i ==> key_id_for(ik, #[trigger] keys@[j].0@) is Some,
                forall|k: u32, p: Seq<u8>|
                    last_private_for(ik, hk.take(i as int), k) == Some(p) ==> key_entries(
                        self.private_keys@,
                    ).contains((id@, k, p)),
                forall|e: (Seq<u8>, u32, Seq<u8>)|
                    (e.0 != id@ || last_private_for(ik, hk.take(i as int), e.1) is None) ==> (
                    key_entries(self.private_keys@).contains(e) <==> key_entries(
                        old(self).private_keys@,
                    ).contains(e)),
            decreases keys@.len() - i,
        {
            let kid = find_key_id(identity_keys, &keys[i].0);
            match kid {
                None => {
                    return Err(
                        WalletError::Custom(
                            "Public key hash derived from input private key does not match any identity public key".to_owned(),
                        ),
                    );
                },
                Some(k) => {
                    let ghost before = key_entries(self.private_keys@);
                    self.insert_private_key(id.clone(), k, keys[i].1.clone());
                    proof {
                        let t = hk.take(i + 1);
                        assert(t.drop_last() =~= hk.take(i as int));
                        assert(t.last() == (keys@[i as int].0@, keys@[i as int].1@));
                        assert forall|kk: u32, p: Seq<u8>|
                            last_private_for(ik, t, kk) == Some(p) implies key_entries(
                                self.private_keys@,
                            ).contains((id@, kk, p)) by {
                            if kk == k {
                                assert(p == keys@[i as int].1@);
                            } else {
                                assert(last_private_for(ik, hk.take(i as int), kk) == Some(p));
                                assert(before.contains((id@, kk, p)));
                            }
                        }
                        assert forall|e: (Seq<u8>, u32, Seq<u8>)|
                            (e.0 != id@ || last_private_for(ik, t, e.1) is None) implies (
                            key_entries(self.private_keys@).contains(e) <==> key_entries(
                                old(self).private_keys@,
                            ).contains(e)) by {
                            if e.0 == id@ {
                                assert(e.1 != k);
                                assert(last_private_for(ik, hk.take(i as int), e.1) is None);
                            }
                        }
                    }
                },
            }
            i = i + 1;
        }
        proof {
            assert(hk.take(i as int) =~= hk);
        }
        Ok(())
    }

    /// Loads the fetched identity `identity`, whose identifier is `id`, and adds
    /// private keys to it as `add_private_keys_matching` does. The identity stays
    /// loaded whether or not every key matches; the known identities do not
    /// change.
    pub fn load_with_private_keys(
        &mut self,
        id: &Vec<u8>,
        identity: I,
        identity_keys: &Vec<(u32, Vec<u8>)>,
        keys: &Vec<(Vec<u8>, Vec<u8>)>,
    ) -> (r: Result<(), WalletError>)
        requires
            old(self).wf(),
        ensures
            final(self).wf(),
            final(self).known == old(self).known,
            final(self).loaded matches Some(l) && l.id@ == id@ && l.identity == identity,
            r is Ok <==> forall|i: int|
                0 <= i < keys@.len() ==> key_id_for(
                    key_hashes(identity_keys@),
                    #[trigger] keys@[i].0@,
                ) is Some,
            r matches Err(e) ==> exists|f: int|
                0 <= f < keys@.len() && key_id_for(key_hashes(identity_keys@), keys@[f].0@) is None
                    && (forall|j: int|
                    0 <= j < f ==> key_id_for(key_hashes(identity_keys@), #[trigger] keys@[j].0@)
                        is Some) && e.spec_message()
                    == "Public key hash derived from input private key does not match any identity public key"@
                    && (forall|k: u32, p: Seq<u8>|
                    last_private_for(key_hashes(identity_keys@), hashed_keys(keys@).take(f), k)
                        == Some(p) ==> key_entries(final(self).private_keys@).contains(
                        (id@, k, p),
                    )) && (forall|e: (Seq<u8>, u32, Seq<u8>)|
                    (e.0 != id@ || last_private_for(
                        key_hashes(identity_keys@),
                        hashed_keys(keys@).take(f),
                        e.1,
                    ) is None) ==> (key_entries(final(self).private_keys@).contains(e)
                        <==> key_entries(old(self).private_keys@).contains(e))),
            r is Ok ==> (forall|k: u32, p: Seq<u8>|
                last_private_for(key_hashes(identity_keys@), hashed_keys(keys@), k) == Some(p)
                    ==> key_entries(final(self).private_keys@).contains((id@, k, p))) && (forall|
                e: (Seq<u8>, u32, Seq<u8>),
            |
                (e.0 != id@ || last_private_for(key_hashes(identity_keys@), hashed_keys(keys@), e.1)
                    is None) ==> (key_entries(final(self).private_keys@).contains(e)
                    <==> key_entries(old(self).private_keys@).contains(e))),
    {
        let loaded_id = id.clone();
        proof {
            assert(loaded_id@ =~= id@);
        }
        self.loaded = Some(KnownIdentity { id: loaded_id, identity });
        self.add_private_keys_matching(id, identity_keys, keys)
    }

    /// Forgets the identity `id`: it leaves the known identities, its private
    /// keys are dropped and, where it is the loaded identity, nothing stays
    /// loaded. Everything else is kept, in order.
    pub fn forget_identity(&mut self, id: &Vec<u8>)
        requires
            old(self).wf(),
        ensures
            final(self).wf(),
            final(self).known@ == old(self).known@.filter(identity_not(id@)),
            known_ids(final(self).known@) == known_ids(old(self).known@).filter(id_differs(id@)),
            key_entries(final(self).private_keys@) == key_entries(old(self).private_keys@).filter(
                entry_not_of(id@),
            ),
            match old(self).loaded {
                Some(l) => if l.id@ == id@ {
                    final(self).loaded is None
                } else {
                    final(self).loaded == old(self).loaded
                },
                None => final(self).loaded is None,
            },
    {
        let mut known = Vec::new();
        std::mem::swap(&mut known, &mut self.known);
        let ghost old_known = known@;
        let mut kept: Vec<KnownIdentity<I>> = Vec::new();
        let mut rest = known;
        let mut i: usize = 0;
        let n = rest.len();
        while rest.len() > 0
            invariant
                n == old_known.len(),
                i + rest@.len() == n,
                rest@ == old_known.skip(i as int),
                known_ids(kept@) == known_ids(old_known.take(i as int)).filter(id_differs(id@)),
                kept@ == old_known.take(i as int).filter(identity_not(id@)),
                forall|a: int, b: int|
                    0 <= a < b < old_known.len() ==> old_known[a].id@ != old_known[b].id@,
                forall|a: int, b: int| 0 <= a < b < kept@.len() ==> kept@[a].id@ != kept@[b].id@,
                forall|a: int| #![trigger kept@[a]]
                    0 <= a < kept@.len() ==> exists|q: int|
                        0 <= q < i && old_known[q].id@ == kept@[a].id@,
            decreases rest@.len(),
        {
            let e = rest.remove(0);
            let ghost ids_next = known_ids(old_known.take(i + 1));
            proof {
                assert(old_known.take(i + 1).drop_last() =~= old_known.take(i as int));
                assert(ids_next.drop_last() =~= known_ids(old_known.take(i as int)));
                assert(ids_next.last() == e.id@);
                assert(ids_next =~= known_ids(old_known.take(i as int)).push(e.id@));
                known_ids(old_known.take(i as int)).lemma_filter_push(e.id@, id_differs(id@));
                assert(old_known.take(i + 1) =~= old_known.take(i as int).push(e));
                old_known.take(i as int).lemma_filter_push(e, identity_not(id@));
                assert(rest@ =~= old_known.skip(i + 1));
            }
            if !bytes_equal(&e.id, id) {
                let ghost kept_before = kept@;
                kept.push(e);
                proof {
                    assert(known_ids(kept@) =~= known_ids(kept_before).push(old_known[i as int].id@));
                    assert forall|a: int, b: int|
                        0 <= a < b < kept@.len() implies kept@[a].id@ != kept@[b].id@ by {
                        if b == kept@.len() - 1 {
                            let q = choose|q: int|
                                0 <= q < i && old_known[q].id@ == kept_before[a].id@;
                            assert(old_known[q].id@ != old_known[i as int].id@);
                        }
                    }
                    assert forall|a: int| #![trigger kept@[a]]
                        0 <= a < kept@.len() implies exists|q: int|
                            0 <= q < i + 1 && old_known[q].id@ == kept@[a].id@ by {
                        if a == kept@.len() - 1 {
                            assert(old_known[i as int].id@ == kept@[a].id@);
                        } else {
                            let q = choose|q: int|
                                0 <= q < i && old_known[q].id@ == kept_before[a].id@;
                            assert(old_known[q].id@ == kept@[a].id@);
                        }
                    }
                }
            }
            i = i + 1;
        }
        proof {
            assert(old_known.take(i as int) =~= old_known);
        }
        self.known = kept;
        let mut keys = Vec::new();
        std::mem::swap(&mut keys, &mut self.private_keys);
        let ghost old_keys = keys@;
        let mut kept_keys: Vec<IdentityKeyEntry> = Vec::new();
        let mut j: usize = 0;
        while j < keys.len()
            invariant
                keys@ == old_keys,
                j <= keys@.len(),
                key_entries(kept_keys@) == key_entries(old_keys.take(j as int)).filter(
                    entry_not_of(id@),
                ),
                forall|a: int, b: int|
                    0 <= a < b < old_keys.len() ==> !(old_keys[a].identity_id@
                        == old_keys[b].identity_id@ && old_keys[a].key_id == old_keys[b].key_id),
                forall|a: int, b: int|
                    0 <= a < b < kept_keys@.len() ==> !(kept_keys@[a].identity_id@
                        == kept_keys@[b].identity_id@ && kept_keys@[a].key_id
                        == kept_keys@[b].key_id),
                forall|a: int| #![trigger kept_keys@[a]]
                    0 <= a < kept_keys@.len() ==> exists|q: int|
                        0 <= q < j && old_keys[q].identity_id@ == kept_keys@[a].identity_id@
                            && old_keys[q].key_id == kept_keys@[a].key_id,
            decreases keys@.len() - j,
        {
            let ghost es_next = key_entries(old_keys.take(j + 1));
            proof {
                assert(old_keys.take(j + 1).drop_last() =~= old_keys.take(j as int));
                assert(es_next =~= key_entries(old_keys.take(j as int)).push(
                    (old_keys[j as int].identity_id@, old_keys[j as int].key_id, old_keys[j as int].private_key@),
                ));
                key_entries(old_keys.take(j as int)).lemma_filter_push(
                    (old_keys[j as int].identity_id@, old_keys[j as int].key_id, old_keys[j as int].private_key@),
                    entry_not_of(id@),
                );
            }
            if !bytes_equal(&keys[j].identity_id, id) {
                let ghost kept_before = kept_keys@;
                let entry = IdentityKeyEntry {
                    identity_id: keys[j].identity_id.clone(),
                    key_id: keys[j].key_id,
                    private_key: keys[j].private_key.clone(),
                };
                kept_keys.push(entry);
                proof {
                    assert(kept_keys@.last().identity_id@ =~= old_keys[j as int].identity_id@);
                    assert(kept_keys@.last().private_key@ =~= old_keys[j as int].private_key@);
                    assert(key_entries(kept_keys@) =~= key_entries(kept_before).push(
                        (old_keys[j as int].identity_id@, old_keys[j as int].key_id, old_keys[j as int].private_key@),
                    ));
                    assert forall|a: int, b: int|
                        0 <= a < b < kept_keys@.len() implies !(kept_keys@[a].identity_id@
                            == kept_keys@[b].identity_id@ && kept_keys@[a].key_id
                            == kept_keys@[b].key_id) by {
                        if b == kept_keys@.len() - 1 {
                            let q = choose|q: int|
                                0 <= q < j && old_keys[q].identity_id@ == kept_before[a].identity_id@
                                    && old_keys[q].key_id == kept_before[a].key_id;
                            assert(!(old_keys[q].identity_id@ == old_keys[j as int].identity_id@
                                && old_keys[q].key_id == old_keys[j as int].key_id));
                        }
                    }
                    assert forall|a: int| #![trigger kept_keys@[a]]
                        0 <= a < kept_keys@.len() implies exists|q: int|
                            0 <= q < j + 1 && old_keys[q].identity_id@ == kept_keys@[a].identity_id@
                                && old_keys[q].key_id == kept_keys@[a].key_id by {
                        if a == kept_keys@.len() - 1 {
                            assert(old_keys[j as int].identity_id@ == kept_keys@[a].identity_id@);
                        } else {
                            let q = choose|q: int|
                                0 <= q < j && old_keys[q].identity_id@ == kept_before[a].identity_id@
                                    && old_keys[q].key_id == kept_before[a].key_id;
                            assert(old_keys[q].identity_id@ == kept_keys@[a].identity_id@);
                        }
                    }
                }
            }
            j = j + 1;
        }
        proof {
            assert(old_keys.take(j as int) =~= old_keys);
        }
        self.private_keys = kept_keys;
        let clear = match &self.loaded {
            Some(l) => bytes_equal(&l.id, id),
            None => false,
        };
        if clear {
            self.loaded = None;
        }
    }
}

/// The name that a registered DPNS name is remembered under: lower case, with
/// `l` written `1` and `o` written `0`.
pub open spec fn remembered_dpns_name(name: Seq<char>) -> Seq<char> {
    lowercase(name).map_values(
        |c: char|
            if c == 'l' {
                '1'
            } else if c == 'o' {
                '0'
            } else {
                c
            },
    )
}

/// The name that a registered DPNS name is remembered under among the names of
/// known identities.
pub fn remembered_dpns_name_of(name: &str) -> (r: String)
    ensures
        r@ == remembered_dpns_name(name@),
{
    let lower = to_lowercase(name);
    let chars = crate::text::chars_of(lower.as_str());
    let mut out: Vec<char> = Vec::new();
    let mut i: usize = 0;
    while i < chars.len()
        invariant
            chars@ == lowercase(name@),
            i <= chars@.len(),
            out@ == remembered_dpns_name(name@).take(i as int),
        decreases chars@.len() - i,
    {
        let c = chars[i];
        let d = if c == 'l' {
            '1'
        } else if c == 'o' {
            '0'
        } else {
            c
        };
        out.push(d);
        proof {
            assert(remembered_dpns_name(name@).take(i + 1) =~= remembered_dpns_name(name@).take(
                i as int,
            ).push(d));
        }
        i = i + 1;
    }
    proof {
        assert(remembered_dpns_name(name@).take(i as int) =~= remembered_dpns_name(name@));
    }
    crate::text::string_from_chars(&out)
}

/// The identity of a masternode: the Base58 identifier to fetch and the bytes
/// of its ProTxHash.
#[derive(Debug)]
pub struct MasternodeIdentity {
    /// Base58 of the SHA-256 of the ProTxHash followed by the key's hash.
    pub identity_id: String,
    /// The ProTxHash, decoded from hex.
    pub pro_tx_hash: Vec<u8>,
}

/// The Base58 identifier of the identity of a masternode whose ProTxHash is
/// `pro_tx_hash_hex` and whose voting key hashes to `public_key_hash`; fails with
/// the decoding error where the ProTxHash is not hex.
pub fn masternode_identity(pro_tx_hash_hex: &str, public_key_hash: &Vec<u8>) -> (r: Result<
    MasternodeIdentity,
    String,
>)
    ensures
        r is Ok <==> is_hex_text(pro_tx_hash_hex.spec_bytes()),
        r matches Ok(m) ==> {
            &&& m.pro_tx_hash@ == hex_bytes(pro_tx_hash_hex.spec_bytes())
            &&& m.identity_id@ == base58_text(sha256(m.pro_tx_hash@ + public_key_hash@))
        },
        r matches Err(e) ==> e@ == "Failed to decode proTxHash from hex: "@ + hex_error_message(
            pro_tx_hash_hex.spec_bytes(),
        ),
{
    let bytes = match hex_decode(pro_tx_hash_hex) {
        Ok(b) => b,
        Err(e) => {
            let mut msg: Vec<char> = Vec::new();
            crate::text::push_str(&mut msg, "Failed to decode proTxHash from hex: ");
            crate::text::push_string(&mut msg, &e);
            return Err(crate::text::string_from_chars(&msg));
        },
    };
    let mut data: Vec<u8> = bytes.clone();
    let mut extra = public_key_hash.clone();
    proof {
        assert(data@ =~= bytes@);
        assert(extra@ =~= public_key_hash@);
    }
    data.append(&mut extra);
    proof {
        assert(data@ =~= bytes@ + public_key_hash@);
    }
    let digest = sha256_digest(data.as_slice());
    let identity_id = bs58_encode(digest.as_slice());
    Ok(MasternodeIdentity { identity_id, pro_tx_hash: bytes })
}

/// Whether a failed top up should start over with a new asset lock: the
/// platform reports that the transition is already in the chain or that the
/// asset lock is already completely used.
pub fn top_up_should_start_over(error_message: &str) -> (r: bool)
    ensures
        r == (contains_text(error_message@, "state transition already in chain"@)
            || contains_text(error_message@, "already completely used"@)),
{
    str_contains(error_message, "state transition already in chain") || str_contains(
        error_message,
        "already completely used",
    )
}

/// Whether a failed broadcast means that the transaction was broadcast before.
pub fn already_broadcast(error_message: &str) -> (r: bool)
    ensures
        r == contains_text(error_message@, "AlreadyExists"@),
{
    str_contains(error_message, "AlreadyExists")
}

/// How far the registration of an identity got, as the explorer stores it.
pub struct RegistrationProgress {
    /// The asset lock transaction was made.
    pub has_asset_lock_transaction: bool,
    /// Its asset lock proof was received.
    pub has_asset_lock_proof: bool,
    /// The identity and its keys were made.
    pub has_identity: bool,
}

/// The next step of a registration that is resumed.
pub enum RegistrationStep {
    /// Make the asset lock transaction from the wallet.
    CreateAssetLockTransaction,
    /// Broadcast it and wait for its proof.
    RetrieveAssetLockProof,
    /// Make the identity, its keys and its identifier.
    CreateIdentity,
    /// Put the identity to the platform.
    PutIdentity,
}

/// The step that a resumed registration takes next: the first one whose result
/// is not stored.
pub fn next_registration_step(progress: &RegistrationProgress) -> (r: RegistrationStep)
    ensures
        !progress.has_asset_lock_transaction ==> r is CreateAssetLockTransaction,
        progress.has_asset_lock_transaction && !progress.has_asset_lock_proof
            ==> r is RetrieveAssetLockProof,
        progress.has_asset_lock_transaction && progress.has_asset_lock_proof
            && !progress.has_identity ==> r is CreateIdentity,
        progress.has_asset_lock_transaction && progress.has_asset_lock_proof
            && progress.has_identity ==> r is PutIdentity,
{
    if !progress.has_asset_lock_transaction {
        RegistrationStep::CreateAssetLockTransaction
    } else if !progress.has_asset_lock_proof {
        RegistrationStep::RetrieveAssetLockProof
    } else if !progress.has_identity {
        RegistrationStep::CreateIdentity
    } else {
        RegistrationStep::PutIdentity
    }
}

/// A registration in creation, as the explorer keeps it between attempts: the
/// asset lock transaction and its one-time key, then the asset lock proof, then
/// the identity made with its keys.
pub struct RegistrationSlot<T, K, P, D> {
    pub asset_lock_transaction: T,
    pub asset_lock_key: K,
    pub asset_lock_proof: Option<P>,
    pub identity: Option<D>,
}

/// What came of a step of a registration.
pub enum RegistrationEvent<T, K, P, D> {
    /// The wallet made the asset lock transaction and its key.
    AssetLockMade(T, K),
    /// The wallet could not make it.
    AssetLockFailed(WalletError),
    /// The asset lock was broadcast and its proof received.
    ProofReceived(P),
    /// Broadcasting it or waiting for its proof failed, with the error's text.
    ProofFailed(String),
    /// The identity and its keys were made.
    IdentityMade(D),
    /// Making them failed, with the error's text.
    IdentityFailed(String),
    /// The identity was put to the platform.
    Put,
    /// Putting it failed, with the error's text.
    PutFailed(String),
}

/// The step that a registration takes next: the first part of the registration
/// that is not stored; a stored part is used again, never made anew.
pub open spec fn slot_step<T, K, P, D>(slot: Option<RegistrationSlot<T, K, P, D>>) -> RegistrationStep {
    match slot {
        None => RegistrationStep::CreateAssetLockTransaction,
        Some(s) => if s.asset_lock_proof is None {
            RegistrationStep::RetrieveAssetLockProof
        } else if s.identity is None {
            RegistrationStep::CreateIdentity
        } else {
            RegistrationStep::PutIdentity
        },
    }
}

/// The step that a registration takes next, from what is stored of it.
pub fn registration_step<T, K, P, D>(slot: &Option<RegistrationSlot<T, K, P, D>>) -> (r:
    RegistrationStep)
    ensures
        r == slot_step(*slot),
        slot is None ==> r is CreateAssetLockTransaction,
        slot matches Some(s) ==> (s.asset_lock_proof is None ==> r is RetrieveAssetLockProof),
        slot matches Some(s) ==> (s.asset_lock_proof is Some && s.identity is None
            ==> r is CreateIdentity),
        slot matches Some(s) ==> (s.asset_lock_proof is Some && s.identity is Some
            ==> r is PutIdentity),
{
    match slot {
        None => RegistrationStep::CreateAssetLockTransaction,
        Some(s) => if s.asset_lock_proof.is_none() {
            RegistrationStep::RetrieveAssetLockProof
        } else if s.identity.is_none() {
            RegistrationStep::CreateIdentity
        } else {
            RegistrationStep::PutIdentity
        },
    }
}

/// How a registration begins: it needs a loaded wallet, and is refused
/// before any step without one; otherwise it goes on with the step that what
/// is stored of it calls for. Nothing stored is changed either way.
pub fn begin_registration<T, K, P, D>(slot: &Option<RegistrationSlot<T, K, P, D>>, wallet_loaded: bool) -> (r:
    Result<RegistrationStep, BackendError>)
    ensures
        !wallet_loaded ==> (r matches Err(e) && e.spec_message()
            == "Identity registration error: "@ + "No wallet loaded"@),
        wallet_loaded ==> r == Ok::<RegistrationStep, BackendError>(slot_step(*slot)),
{
    if !wallet_loaded {
        return Err(BackendError::IdentityRegistration("No wallet loaded".to_owned()));
    }
    Ok(registration_step(slot))
}

/// What is stored of a registration after the event of a step: each part that
/// was made is stored where nothing was stored for it (a stored part is never
/// replaced); a registration that was put is done and nothing stays stored; a
/// failure leaves everything stored as it was, so that the next attempt resumes
/// where it stopped.
pub open spec fn slot_after<T, K, P, D>(
    slot: Option<RegistrationSlot<T, K, P, D>>,
    event: RegistrationEvent<T, K, P, D>,
) -> Option<RegistrationSlot<T, K, P, D>> {
    match event {
        RegistrationEvent::AssetLockMade(t, k) => match slot {
            None => Some(
                RegistrationSlot {
                    asset_lock_transaction: t,
                    asset_lock_key: k,
                    asset_lock_proof: None,
                    identity: None,
                },
            ),
            Some(s) => Some(s),
        },
        RegistrationEvent::ProofReceived(p) => match slot {
            Some(s) => if s.asset_lock_proof is None {
                Some(
                    RegistrationSlot {
                        asset_lock_transaction: s.asset_lock_transaction,
                        asset_lock_key: s.asset_lock_key,
                        asset_lock_proof: Some(p),
                        identity: s.identity,
                    },
                )
            } else {
                Some(s)
            },
            None => None,
        },
        RegistrationEvent::IdentityMade(d) => match slot {
            Some(s) => if s.asset_lock_proof is Some && s.identity is None {
                Some(
                    RegistrationSlot {
                        asset_lock_transaction: s.asset_lock_transaction,
                        asset_lock_key: s.asset_lock_key,
                        asset_lock_proof: s.asset_lock_proof,
                        identity: Some(d),
                    },
                )
            } else {
                Some(s)
            },
            None => None,
        },
        RegistrationEvent::Put => None,
        _ => slot,
    }
}

/// The message of the error that a failed step of a registration reports.
pub open spec fn registration_failure<T, K, P, D>(event: RegistrationEvent<T, K, P, D>) -> Option<
    Seq<char>,
> {
    match event {
        RegistrationEvent::AssetLockFailed(e) => Some("Wallet error: "@ + e.spec_message()),
        RegistrationEvent::ProofFailed(e) => Some(
            "SDK error: "@ + "broadcasting transaction failed"@ + " "@ + e@,
        ),
        RegistrationEvent::IdentityFailed(e) => Some("error while parsing an identity: "@ + e@),
        RegistrationEvent::PutFailed(e) => Some("SDK error: "@ + e@),
        _ => None,
    }
}

/// Records the event of a step of a registration in what is stored of it, and
/// reports the failure where the step failed.
pub fn advance_registration<T, K, P, D>(
    slot: &mut Option<RegistrationSlot<T, K, P, D>>,
    event: RegistrationEvent<T, K, P, D>,
) -> (r: Result<(), BackendError>)
    ensures
        *final(slot) == slot_after(*old(slot), event),
        match registration_failure(event) {
            Some(f) => r matches Err(e) && e.spec_message() == f,
            None => r is Ok,
        },
{
    match event {
        RegistrationEvent::AssetLockMade(t, k) => {
            if slot.is_none() {
                *slot = Some(
                    RegistrationSlot {
                        asset_lock_transaction: t,
                        asset_lock_key: k,
                        asset_lock_proof: None,
                        identity: None,
                    },
                );
            }
            Ok(())
        },
        RegistrationEvent::ProofReceived(p) => {
            match slot.take() {
                Some(s) => {
                    let RegistrationSlot {
                        asset_lock_transaction,
                        asset_lock_key,
                        asset_lock_proof,
                        identity,
                    } = s;
                    let proof = match asset_lock_proof {
                        None => Some(p),
                        Some(q) => Some(q),
                    };
                    *slot = Some(
                        RegistrationSlot {
                            asset_lock_transaction,
                            asset_lock_key,
                            asset_lock_proof: proof,
                            identity,
                        },
                    );
                },
                None => {},
            }
            Ok(())
        },
        RegistrationEvent::IdentityMade(d) => {
            match slot.take() {
                Some(s) => {
                    let RegistrationSlot {
                        asset_lock_transaction,
                        asset_lock_key,
                        asset_lock_proof,
                        identity,
                    } = s;
                    let has_proof = asset_lock_proof.is_some();
                    let made = match identity {
                        None => if has_proof {
                            Some(d)
                        } else {
                            None
                        },
                        Some(i) => Some(i),
                    };
                    *slot = Some(
                        RegistrationSlot {
                            asset_lock_transaction,
                            asset_lock_key,
                            asset_lock_proof,
                            identity: made,
                        },
                    );
                },
                None => {},
            }
            Ok(())
        },
        RegistrationEvent::Put => {
            *slot = None;
            Ok(())
        },
        RegistrationEvent::AssetLockFailed(e) => Err(BackendError::Wallet(e)),
        RegistrationEvent::ProofFailed(e) => Err(
            BackendError::SdkExplained("broadcasting transaction failed".to_owned(), e),
        ),
        RegistrationEvent::IdentityFailed(e) => Err(BackendError::Parsing(e)),
        RegistrationEvent::PutFailed(e) => Err(BackendError::Sdk(e)),
    }
}

/// A top up in progress, as the explorer keeps it between attempts: the asset
/// lock transaction and its one-time key, then the asset lock proof.
pub struct TopUpSlot<T, K, P> {
    pub asset_lock_transaction: T,
    pub asset_lock_key: K,
    pub asset_lock_proof: Option<P>,
}

/// A top up being run: what is stored of it, whether its stored asset lock is
/// to be replaced by a new one, and whether this run started over already.
pub struct TopUpRun<T, K, P> {
    pub slot: Option<TopUpSlot<T, K, P>>,
    pub replace_asset_lock: bool,
    pub started_over: bool,
}

/// What came of a step of a top up.
pub enum TopUpEvent<T, K, P> {
    /// The wallet made an asset lock transaction and its key.
    AssetLockMade(T, K),
    /// The wallet could not make it.
    AssetLockFailed(WalletError),
    /// The asset lock was broadcast and its proof received.
    ProofReceived(P),
    /// Broadcasting it or waiting for its proof failed, with the error's text.
    ProofFailed(String),
    /// The identity was topped up.
    ToppedUp,
    /// The top up failed: the error's text, and the text of the platform
    /// client's own error where it came from the client.
    TopUpFailed(String, Option<String>),
}

/// The steps of a top up.
pub enum TopUpStep {
    /// Make an asset lock transaction from the wallet.
    CreateAssetLockTransaction,
    /// Broadcast it and wait for its proof.
    RetrieveAssetLockProof,
    /// Top the identity up with the proof.
    TopUp,
}

/// The step that a top up takes next: a new asset lock where none is stored or
/// the stored one is to be replaced, then its proof, then the top up itself.
pub open spec fn top_up_step_spec<T, K, P>(run: TopUpRun<T, K, P>) -> TopUpStep {
    match run.slot {
        None => TopUpStep::CreateAssetLockTransaction,
        Some(s) => if run.replace_asset_lock {
            TopUpStep::CreateAssetLockTransaction
        } else if s.asset_lock_proof is None {
            TopUpStep::RetrieveAssetLockProof
        } else {
            TopUpStep::TopUp
        },
    }
}

/// A failed top up starts over with a new asset lock, once per run, where the
/// platform client reports that the transition is already in the chain or that
/// the asset lock is already completely used.
pub open spec fn starts_over(started_over: bool, client_text: Option<String>) -> bool {
    !started_over && (client_text matches Some(t) && (contains_text(
        t@,
        "state transition already in chain"@,
    ) || contains_text(t@, "already completely used"@)))
}

/// The run after the event of a step: a new asset lock is stored where none
/// is, or where the stored one is to be replaced; a proof is stored where none
/// is; a top up that was done clears what is stored; one that starts over marks
/// the stored asset lock to be replaced; other failures leave everything as it
/// was.
pub open spec fn top_up_after<T, K, P>(run: TopUpRun<T, K, P>, event: TopUpEvent<T, K, P>) -> TopUpRun<
    T,
    K,
    P,
> {
    match event {
        TopUpEvent::AssetLockMade(t, k) => if run.slot is None || run.replace_asset_lock {
            TopUpRun {
                slot: Some(TopUpSlot { asset_lock_transaction: t, asset_lock_key: k, asset_lock_proof: None }),
                replace_asset_lock: false,
                started_over: run.started_over,
            }
        } else {
            run
        },
        TopUpEvent::ProofReceived(p) => match run.slot {
            Some(s) => if s.asset_lock_proof is None && !run.replace_asset_lock {
                TopUpRun {
                    slot: Some(
                        TopUpSlot {
                            asset_lock_transaction: s.asset_lock_transaction,
                            asset_lock_key: s.asset_lock_key,
                            asset_lock_proof: Some(p),
                        },
                    ),
                    ..run
                }
            } else {
                run
            },
            None => run,
        },
        TopUpEvent::ToppedUp => TopUpRun { slot: None, replace_asset_lock: false, ..run },
        TopUpEvent::TopUpFailed(_, client_text) => if starts_over(run.started_over, client_text) {
            TopUpRun { replace_asset_lock: true, started_over: true, ..run }
        } else {
            run
        },
        _ => run,
    }
}

/// The message of the error that ends a top up after the event of a step, if
/// the event ends it.
pub open spec fn top_up_failure<T, K, P>(run: TopUpRun<T, K, P>, event: TopUpEvent<T, K, P>) -> Option<
    Seq<char>,
> {
    match event {
        TopUpEvent::AssetLockFailed(e) => Some("Wallet error: "@ + e.spec_message()),
        TopUpEvent::ProofFailed(e) => Some(
            "SDK error: "@ + "error broadcasting transaction"@ + " "@ + e@,
        ),
        TopUpEvent::TopUpFailed(e, client_text) => if starts_over(run.started_over, client_text) {
            None
        } else {
            Some("SDK error: "@ + e@)
        },
        _ => None,
    }
}

/// The step that a top up takes next.
pub fn top_up_step<T, K, P>(run: &TopUpRun<T, K, P>) -> (r: TopUpStep)
    ensures
        r == top_up_step_spec(*run),
{
    match &run.slot {
        None => TopUpStep::CreateAssetLockTransaction,
        Some(s) => if run.replace_asset_lock {
            TopUpStep::CreateAssetLockTransaction
        } else if s.asset_lock_proof.is_none() {
            TopUpStep::RetrieveAssetLockProof
        } else {
            TopUpStep::TopUp
        },
    }
}

/// How a top up begins: it needs a loaded wallet, then a loaded identity, and
/// is refused before any step without them; otherwise it goes on with the step
/// that what is stored of it calls for. Nothing stored is changed either way.
pub fn begin_top_up<T, K, P>(run: &TopUpRun<T, K, P>, wallet_loaded: bool, identity_loaded: bool) -> (r:
    Result<TopUpStep, BackendError>)
    ensures
        !wallet_loaded ==> (r matches Err(e) && e.spec_message()
            == "Identity registration error: "@ + "No wallet loaded"@),
        wallet_loaded && !identity_loaded ==> (r matches Err(e) && e.spec_message()
            == "Identity top up error: "@ + "No identity loaded"@),
        wallet_loaded && identity_loaded ==> r == Ok::<TopUpStep, BackendError>(
            top_up_step_spec(*run),
        ),
{
    if !wallet_loaded {
        return Err(BackendError::IdentityRegistration("No wallet loaded".to_owned()));
    }
    if !identity_loaded {
        return Err(BackendError::IdentityTopUp("No identity loaded".to_owned()));
    }
    Ok(top_up_step(run))
}

/// Records the event of a step of a top up, and reports the failure that ends
/// it, if any.
pub fn advance_top_up<T, K, P>(run: &mut TopUpRun<T, K, P>, event: TopUpEvent<T, K, P>) -> (r: Result<
    (),
    BackendError,
>)
    ensures
        *final(run) == top_up_after(*old(run), event),
        match top_up_failure(*old(run), event) {
            Some(f) => r matches Err(e) && e.spec_message() == f,
            None => r is Ok,
        },
        event matches TopUpEvent::TopUpFailed(_, Some(t)) ==> (!old(run).started_over && (
        contains_text(t@, "state transition already in chain"@) || contains_text(
            t@,
            "already completely used"@,
        )) ==> (r is Ok && final(run).replace_asset_lock && final(run).started_over
            && final(run).slot == old(run).slot)),
        event matches TopUpEvent::TopUpFailed(_, t) ==> ((old(run).started_over || t is None)
            ==> r is Err),
{
    match event {
        TopUpEvent::AssetLockMade(t, k) => {
            if run.slot.is_none() || run.replace_asset_lock {
                run.slot = Some(
                    TopUpSlot { asset_lock_transaction: t, asset_lock_key: k, asset_lock_proof: None },
                );
                run.replace_asset_lock = false;
            }
            Ok(())
        },
        TopUpEvent::ProofReceived(p) => {
            if !run.replace_asset_lock {
                match run.slot.take() {
                    Some(s) => {
                        let TopUpSlot { asset_lock_transaction, asset_lock_key, asset_lock_proof } =
                            s;
                        let proof = match asset_lock_proof {
                            None => Some(p),
                            Some(q) => Some(q),
                        };
                        run.slot = Some(
                            TopUpSlot { asset_lock_transaction, asset_lock_key, asset_lock_proof: proof },
                        );
                    },
                    None => {},
                }
            }
            Ok(())
        },
        TopUpEvent::ToppedUp => {
            run.slot = None;
            run.replace_asset_lock = false;
            Ok(())
        },
        TopUpEvent::TopUpFailed(e, client_text) => {
            let again = !run.started_over && match &client_text {
                Some(t) => top_up_should_start_over(t.as_str()),
                None => false,
            };
            if again {
                run.replace_asset_lock = true;
                run.started_over = true;
                Ok(())
            } else {
                Err(BackendError::Sdk(e))
            }
        },
        TopUpEvent::AssetLockFailed(e) => Err(BackendError::Wallet(e)),
        TopUpEvent::ProofFailed(e) => Err(
            BackendError::SdkExplained("error broadcasting transaction".to_owned(), e),
        ),
    }
}

/// Security levels of identity keys.
#[derive(PartialEq, Eq, Structural)]
pub enum KeySecurityLevel {
    Master,
    Critical,
    High,
    Medium,
}

/// The id of the first key, in key order, whose level is master.
pub fn master_key_id(keys: &Vec<(u32, KeySecurityLevel)>) -> (r: Option<u32>)
    ensures
        r is None <==> forall|i: int| 0 <= i < keys@.len() ==> !(keys@[i].1 is Master),
        r matches Some(id) ==> exists|i: int|
            0 <= i < keys@.len() && keys@[i].0 == id && keys@[i].1 is Master && forall|j: int|
                0 <= j < i ==> !(keys@[j].1 is Master),
{
    let mut i: usize = 0;
    while i < keys.len()
        invariant
            i <= keys@.len(),
            forall|j: int| 0 <= j < i ==> !(keys@[j].1 is Master),
        decreases keys@.len() - i,
    {
        if keys[i].1 == KeySecurityLevel::Master {
            return Some(keys[i].0);
        }
        i = i + 1;
    }
    None
}

/// The largest of the key ids, or 0 where there are none.
pub open spec fn max_key_id(ids: Seq<u32>) -> u32
    decreases ids.len(),
{
    if ids.len() == 0 {
        0
    } else {
        let rest = max_key_id(ids.drop_last());
        if ids.last() > rest {
            ids.last()
        } else {
            rest
        }
    }
}

/// The id of a key added to an identity whose keys have the ids `key_ids`: one
/// more than the largest of them, 1 for an identity without keys.
pub fn new_key_id(key_ids: &Vec<u32>) -> (r: u32)
    requires
        forall|i: int| 0 <= i < key_ids@.len() ==> key_ids@[i] < u32::MAX,
    ensures
        r == max_key_id(key_ids@) + 1,
        forall|i: int| 0 <= i < key_ids@.len() ==> key_ids@[i] < r,
{
    let mut max: u32 = 0;
    let mut i: usize = 0;
    while i < key_ids.len()
        invariant
            i <= key_ids@.len(),
            max == max_key_id(key_ids@.take(i as int)),
            max < u32::MAX,
            forall|j: int| 0 <= j < i ==> key_ids@[j] <= max,
            forall|j: int| 0 <= j < key_ids@.len() ==> key_ids@[j] < u32::MAX,
        decreases key_ids@.len() - i,
    {
        proof {
            assert(key_ids@.take(i + 1).drop_last() =~= key_ids@.take(i as int));
        }
        if key_ids[i] > max {
            max = key_ids[i];
        }
        i = i + 1;
    }
    proof {
        assert(key_ids@.take(i as int) =~= key_ids@);
    }
    max + 1
}

} // verus!
