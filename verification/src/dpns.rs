//! The registration of a DPNS name: the key that signs it, the documents it
//! puts, the order of its two transitions, and what the explorer remembers of
//! the names it registered.
use vstd::prelude::*;
use vstd::string::StrSliceExecFns;
use vstd::utf8::encode_utf8;

use crate::codec::{bytes_equal, sha256, sha256_digest};
use crate::contracts::NamedMap;
use crate::errors::BackendError;
use crate::identity::{remembered_dpns_name, remembered_dpns_name_of, KeySecurityLevel};
use crate::text::{push_str, push_string, string_from_chars};

verus! {

/// The bytes that a preorder hashes: the salt, then the UTF-8 of the normalized
/// label followed by `.dash`.
pub open spec fn salted_domain(salt: Seq<u8>, normalized_label: Seq<char>) -> Seq<u8> {
    salt + encode_utf8(normalized_label + ".dash"@)
}

/// The salted domain hash of a preorder: SHA-256 applied twice to the salted
/// domain of the normalized label.
pub fn salted_domain_hash(salt: &Vec<u8>, normalized_label: &String) -> (r: Vec<u8>)
    ensures
        r@ == sha256(sha256(salted_domain(salt@, normalized_label@))),
        r@.len() == 32,
{
    let mut domain: Vec<char> = Vec::new();
    push_string(&mut domain, normalized_label);
    push_str(&mut domain, ".dash");
    let domain_text = string_from_chars(&domain);
    let mut bytes = domain_text.as_str().as_bytes_vec();
    let mut buffer = salt.clone();
    buffer.append(&mut bytes);
    proof {
        assert(buffer@ =~= salted_domain(salt@, normalized_label@));
    }
    let first = sha256_digest(buffer.as_slice());
    sha256_digest(first.as_slice())
}

/// What an identity key is for.
pub enum KeyPurpose {
    Authentication,
    Encryption,
    Decryption,
    Transfer,
    System,
    Voting,
    Owner,
}

/// The kind of an identity key.
pub enum KeyType {
    EcdsaSecp256k1,
    Bls12381,
    EcdsaHash160,
    Bip13ScriptHash,
    Eddsa25519Hash160,
}

/// A key that can sign document transitions at security level `level`: an
/// authentication key of that level, of ECDSA secp256k1 or BLS12-381 type.
pub open spec fn signs_documents_at(
    key: (u32, KeyPurpose, KeySecurityLevel, KeyType),
    level: KeySecurityLevel,
) -> bool {
    &&& key.1 is Authentication
    &&& key.2 == level
    &&& (key.3 is EcdsaSecp256k1 || key.3 is Bls12381)
}

/// The id of the first key, in the given order, that can sign document
/// transitions at security level `level`.
pub open spec fn document_signing_key_at(
    keys: Seq<(u32, KeyPurpose, KeySecurityLevel, KeyType)>,
    level: KeySecurityLevel,
) -> Option<u32>
    decreases keys.len(),
{
    if keys.len() == 0 {
        None
    } else if signs_documents_at(keys[0], level) {
        Some(keys[0].0)
    } else {
        document_signing_key_at(keys.drop_first(), level)
    }
}

/// The key chosen to sign at level `level` is the first key, in the given
/// order, that is an authentication key of exactly that level and of ECDSA
/// secp256k1 or BLS12-381 type; none is chosen only where no key is one.
pub proof fn lemma_document_signing_key_at(
    keys: Seq<(u32, KeyPurpose, KeySecurityLevel, KeyType)>,
    level: KeySecurityLevel,
)
    ensures
        document_signing_key_at(keys, level) matches Some(id) ==> exists|i: int|
            0 <= i < keys.len() && keys[i].0 == id && keys[i].1 is Authentication && keys[i].2
                == level && (keys[i].3 is EcdsaSecp256k1 || keys[i].3 is Bls12381) && forall|j: int|
                0 <= j < i ==> !(keys[j].1 is Authentication && keys[j].2 == level && (
                keys[j].3 is EcdsaSecp256k1 || keys[j].3 is Bls12381)),
        document_signing_key_at(keys, level) is None <==> forall|i: int|
            0 <= i < keys.len() ==> !(keys[i].1 is Authentication && keys[i].2 == level && (
            keys[i].3 is EcdsaSecp256k1 || keys[i].3 is Bls12381)),
    decreases keys.len(),
{
    if keys.len() > 0 {
        let t = keys.drop_first();
        lemma_document_signing_key_at(t, level);
        if !(keys[0].1 is Authentication && keys[0].2 == level && (keys[0].3 is EcdsaSecp256k1
            || keys[0].3 is Bls12381)) {
            if document_signing_key_at(keys, level) is Some {
                let id = document_signing_key_at(keys, level)->0;
                let i = choose|i: int|
                    0 <= i < t.len() && t[i].0 == id && t[i].1 is Authentication && t[i].2 == level
                        && (t[i].3 is EcdsaSecp256k1 || t[i].3 is Bls12381) && forall|j: int|
                        0 <= j < i ==> !(t[j].1 is Authentication && t[j].2 == level && (
                        t[j].3 is EcdsaSecp256k1 || t[j].3 is Bls12381));
                assert(keys[i + 1] == t[i]);
                assert forall|j: int| 0 <= j < i + 1 implies !(keys[j].1 is Authentication
                    && keys[j].2 == level && (keys[j].3 is EcdsaSecp256k1
                    || keys[j].3 is Bls12381)) by {
                    if j > 0 {
                        assert(keys[j] == t[j - 1]);
                    }
                }
            }
            assert forall|i: int| 0 <= i < t.len() implies keys[i + 1] == t[i] by {}
            if document_signing_key_at(keys, level) is None {
                assert forall|i: int| 0 <= i < keys.len() implies !(keys[i].1 is Authentication
                    && keys[i].2 == level && (keys[i].3 is EcdsaSecp256k1
                    || keys[i].3 is Bls12381)) by {
                    if i > 0 {
                        assert(keys[i] == t[i - 1]);
                    }
                }
            } else {
                let id = document_signing_key_at(keys, level)->0;
                let i = choose|i: int|
                    0 <= i < t.len() && t[i].0 == id && t[i].1 is Authentication && t[i].2 == level
                        && (t[i].3 is EcdsaSecp256k1 || t[i].3 is Bls12381);
                assert(keys[i + 1] == t[i]);
            }
        }
    }
}

/// The id of the first key, in the given order, that can sign document
/// transitions at the critical level, as a DPNS registration needs.
pub open spec fn document_signing_key(keys: Seq<(u32, KeyPurpose, KeySecurityLevel, KeyType)>) -> Option<u32> {
    document_signing_key_at(keys, KeySecurityLevel::Critical)
}

/// The refusal of a registration where the identity has no key that signs
/// document transitions.
pub open spec fn no_signing_key_message() -> Seq<char> {
    "Identity doesn't have an authentication key for signing document transitions"@
}

/// The fields of the domain document that a registration puts.
pub struct DpnsDomain {
    /// The name as given.
    pub label: String,
    /// The name in its homograph-safe form.
    pub normalized_label: String,
    /// `dash`.
    pub parent_domain_name: String,
    /// `dash`.
    pub normalized_parent_domain_name: String,
    /// The identity that the name resolves to: the document's owner.
    pub records_identity: Vec<u8>,
    /// Whether others may register names under this one: never.
    pub allow_subdomains: bool,
    /// The salt that the preorder was hashed with.
    pub preorder_salt: Vec<u8>,
}

/// The two document transitions of a DPNS registration: first the preorder,
/// then the domain.
pub struct DpnsPlan {
    /// The key that signs both transitions.
    pub signing_key_id: u32,
    /// The preorder's salted domain hash.
    pub salted_domain_hash: Vec<u8>,
    /// The identity contract nonce of the preorder.
    pub preorder_nonce: u64,
    /// The domain document's fields.
    pub domain: DpnsDomain,
    /// The identity contract nonce of the domain, the one after the preorder's.
    pub domain_nonce: u64,
}

fn signs_documents_exec(key: &(u32, KeyPurpose, KeySecurityLevel, KeyType), level: &KeySecurityLevel) -> (r: bool)
    ensures
        r == signs_documents_at(*key, *level),
{
    let purpose_ok = match key.1 {
        KeyPurpose::Authentication => true,
        _ => false,
    };
    let type_ok = match key.3 {
        KeyType::EcdsaSecp256k1 => true,
        KeyType::Bls12381 => true,
        _ => false,
    };
    purpose_ok && key.2 == *level && type_ok
}

/// The id of the first key, in the given order, that can sign document
/// transitions at security level `level`.
pub fn find_document_signing_key_at(
    keys: &Vec<(u32, KeyPurpose, KeySecurityLevel, KeyType)>,
    level: &KeySecurityLevel,
) -> (r: Option<u32>)
    ensures
        r == document_signing_key_at(keys@, *level),
        r matches Some(id) ==> exists|i: int|
            0 <= i < keys@.len() && keys@[i].0 == id && keys@[i].1 is Authentication && keys@[i].2
                == *level && (keys@[i].3 is EcdsaSecp256k1 || keys@[i].3 is Bls12381),
        r is None ==> forall|i: int|
            0 <= i < keys@.len() ==> !(keys@[i].1 is Authentication && keys@[i].2 == *level && (
            keys@[i].3 is EcdsaSecp256k1 || keys@[i].3 is Bls12381)),
{
    proof {
        crate::dpns::lemma_document_signing_key_at(keys@, *level);
    }
    let mut i: usize = 0;
    assert(keys@.skip(0) =~= keys@);
    while i < keys.len()
        invariant
            i <= keys@.len(),
            document_signing_key_at(keys@, *level) == document_signing_key_at(
                keys@.skip(i as int),
                *level,
            ),
        decreases keys@.len() - i,
    {
        proof {
            assert(keys@.skip(i as int).drop_first() =~= keys@.skip(i + 1));
        }
        if signs_documents_exec(&keys[i], level) {
            return Some(keys[i].0);
        }
        i = i + 1;
    }
    None
}

/// The id of the first key, in the given order, that can sign document
/// transitions at the critical level.
pub fn find_document_signing_key(keys: &Vec<(u32, KeyPurpose, KeySecurityLevel, KeyType)>) -> (r:
    Option<u32>)
    ensures
        r == document_signing_key(keys@),
{
    find_document_signing_key_at(keys, &KeySecurityLevel::Critical)
}

/// The plan of the registration of the name `label`, whose homograph-safe form
/// is `normalized`, for the identity `owner_id` with the keys `keys` (its enabled
/// keys, in key id order): the first key that can sign document transitions
/// signs both; the preorder carries the double SHA-256 of the salted domain and
/// the identity contract nonce `nonce`; the domain carries the name under
/// `dash`, resolving to the owner, without subdomains, with the same salt, and
/// the nonce after. Fails where no key can sign document transitions.
pub fn dpns_registration_plan(
    keys: &Vec<(u32, KeyPurpose, KeySecurityLevel, KeyType)>,
    label: &String,
    normalized: &String,
    salt: &Vec<u8>,
    nonce: u64,
    owner_id: &Vec<u8>,
) -> (r: Result<DpnsPlan, String>)
    requires
        nonce < u64::MAX,
    ensures
        r is Ok <==> document_signing_key(keys@) is Some,
        r matches Err(m) ==> m@ == no_signing_key_message(),
        r matches Ok(p) ==> {
            &&& document_signing_key(keys@) == Some(p.signing_key_id)
            &&& p.salted_domain_hash@ == sha256(sha256(salted_domain(salt@, normalized@)))
            &&& p.preorder_nonce == nonce
            &&& p.domain_nonce == nonce + 1
            &&& p.domain.label@ == label@
            &&& p.domain.normalized_label@ == normalized@
            &&& p.domain.parent_domain_name@ == "dash"@
            &&& p.domain.normalized_parent_domain_name@ == "dash"@
            &&& p.domain.records_identity@ == owner_id@
            &&& !p.domain.allow_subdomains
            &&& p.domain.preorder_salt@ == salt@
        },
{
    let signing_key_id = match find_document_signing_key(keys) {
        Some(k) => k,
        None => {
            return Err(
                "Identity doesn't have an authentication key for signing document transitions".to_owned(),
            );
        },
    };
    let salted_domain_hash = salted_domain_hash(salt, normalized);
    let label_copy = label.clone();
    let normalized_copy = normalized.clone();
    let records_identity = owner_id.clone();
    let preorder_salt = salt.clone();
    proof {
        assert(records_identity@ =~= owner_id@);
        assert(preorder_salt@ =~= salt@);
    }
    Ok(
        DpnsPlan {
            signing_key_id,
            salted_domain_hash,
            preorder_nonce: nonce,
            domain: DpnsDomain {
                label: label_copy,
                normalized_label: normalized_copy,
                parent_domain_name: "dash".to_owned(),
                normalized_parent_domain_name: "dash".to_owned(),
                records_identity,
                allow_subdomains: false,
                preorder_salt,
            },
            domain_nonce: nonce + 1,
        },
    )
}

/// Keeps the fetched DPNS contract among the known contracts under `DPNS`,
/// unless a contract is known under that name already.
pub fn remember_dpns_contract<C>(known: &mut NamedMap<C>, contract: C)
    requires
        old(known).wf(),
    ensures
        final(known).wf(),
        old(known).view_map().contains_key("DPNS"@) ==> final(known).view_map() == old(
            known,
        ).view_map(),
        !old(known).view_map().contains_key("DPNS"@) ==> final(known).view_map() == old(
            known,
        ).view_map().insert("DPNS"@, contract),
{
    known.insert_if_absent("DPNS".to_owned(), contract);
}

/// The transition that a registration waits on.
pub enum DpnsStage {
    /// The preorder, broadcast first.
    Preorder,
    /// The domain, broadcast once the preorder is processed.
    Domain,
}

/// What came of the transition of the current stage.
pub enum DpnsEvent {
    /// The broadcast failed, with the platform's error text.
    BroadcastFailed(String),
    /// The transition was broadcast but did not process, with the error text.
    ProcessingFailed(String),
    /// The transition was processed.
    Processed,
}

/// What a registration does next.
pub enum DpnsAction {
    /// Broadcast the domain transition.
    BroadcastDomain,
    /// The name is registered.
    Done,
    /// The registration fails with this error.
    Fail(BackendError),
}

/// The next step of a registration: a processed preorder is followed by the
/// domain, a processed domain ends it; a failed broadcast fails it with the
/// platform's error, a transition that did not process with a DPNS error that
/// names the document.
pub fn dpns_registration_step(stage: DpnsStage, event: DpnsEvent) -> (r: DpnsAction)
    ensures
        event is Processed ==> (stage is Preorder ==> r is BroadcastDomain) && (stage is Domain
            ==> r is Done),
        event matches DpnsEvent::BroadcastFailed(e) ==> (r matches DpnsAction::Fail(
            BackendError::Sdk(m),
        ) && m@ == e@),
        event matches DpnsEvent::ProcessingFailed(e) ==> (r matches DpnsAction::Fail(
            BackendError::Dpns(m),
        ) && m@ == (if stage is Preorder {
            "Preorder document failed to process: "@
        } else {
            "Domain document failed to process: "@
        }) + e@),
{
    match event {
        DpnsEvent::Processed => match stage {
            DpnsStage::Preorder => DpnsAction::BroadcastDomain,
            DpnsStage::Domain => DpnsAction::Done,
        },
        DpnsEvent::BroadcastFailed(e) => DpnsAction::Fail(BackendError::Sdk(e)),
        DpnsEvent::ProcessingFailed(e) => {
            let mut out: Vec<char> = Vec::new();
            match stage {
                DpnsStage::Preorder => push_str(&mut out, "Preorder document failed to process: "),
                DpnsStage::Domain => push_str(&mut out, "Domain document failed to process: "),
            }
            push_string(&mut out, &e);
            DpnsAction::Fail(BackendError::Dpns(string_from_chars(&out)))
        },
    }
}

/// The DPNS names that the explorer registered, per identity.
pub struct KnownNames {
    /// Identifier and names, one entry per identifier.
    pub entries: Vec<(Vec<u8>, Vec<String>)>,
}

/// Strings as plain text.
pub open spec fn texts(v: Seq<String>) -> Seq<Seq<char>> {
    v.map_values(|s: String| s@)
}

impl KnownNames {
    /// The identifiers, in order.
    pub open spec fn ids(&self) -> Seq<Seq<u8>> {
        self.entries@.map_values(|e: (Vec<u8>, Vec<String>)| e.0@)
    }

    /// No identifier has two entries.
    pub open spec fn wf(&self) -> bool {
        forall|a: int, b: int| 0 <= a < b < self.ids().len() ==> self.ids()[a] != self.ids()[b]
    }

    /// The names of each identifier that has some.
    pub open spec fn view_map(&self) -> Map<Seq<u8>, Seq<Seq<char>>> {
        Map::new(
            |k: Seq<u8>| self.ids().contains(k),
            |k: Seq<u8>| texts(self.entries@[self.ids().index_of(k)].1@),
        )
    }

    proof fn lemma_index(&self, i: int)
        requires
            self.wf(),
            0 <= i < self.ids().len(),
        ensures
            self.ids().index_of(self.ids()[i]) == i,
            self.ids().contains(self.ids()[i]),
    {
        assert(self.ids().contains(self.ids()[i]));
    }

    /// No names yet.
    pub fn new() -> (r: Self)
        ensures
            r.wf(),
            r.view_map() == Map::<Seq<u8>, Seq<Seq<char>>>::empty(),
    {
        let r = KnownNames { entries: Vec::new() };
        assert(r.view_map() =~= Map::<Seq<u8>, Seq<Seq<char>>>::empty());
        r
    }

    /// Adds `name` at the end of the names of `id`, which has none where it had
    /// no entry.
    pub fn add_name(&mut self, id: &Vec<u8>, name: String)
        requires
            old(self).wf(),
        ensures
            final(self).wf(),
            final(self).view_map() == old(self).view_map().insert(
                id@,
                if old(self).view_map().contains_key(id@) {
                    old(self).view_map()[id@]
                } else {
                    Seq::empty()
                }.push(name@),
            ),
    {
        let ghost old_self = *self;
        let ghost ks = self.ids();
        let mut i: usize = 0;
        while i < self.entries.len()
            invariant
                *self == old_self,
                ks == self.ids(),
                i <= self.entries@.len(),
                forall|j: int| 0 <= j < i ==> ks[j] != id@,
            ensures
                *self == old_self,
                i <= self.entries@.len(),
                forall|j: int| 0 <= j < i ==> ks[j] != id@,
                i < self.entries@.len() ==> ks[i as int] == id@,
            decreases self.entries@.len() - i,
        {
            if bytes_equal(&self.entries[i].0, id) {
                break;
            }
            i = i + 1;
        }
        let ghost expected = old_self.view_map().insert(
            id@,
            if old_self.view_map().contains_key(id@) {
                old_self.view_map()[id@]
            } else {
                Seq::empty()
            }.push(name@),
        );
        if i < self.entries.len() {
            proof {
                old_self.lemma_index(i as int);
            }
            let (eid, mut names) = self.entries.remove(i);
            let ghost before = names@;
            names.push(name);
            self.entries.insert(i, (eid, names));
            proof {
                let nk = self.ids();
                assert(nk =~= ks);
                assert(texts(names@) =~= texts(before).push(name@));
                assert forall|k: Seq<u8>| #[trigger] self.view_map().contains_key(k)
                    == expected.contains_key(k) by {}
                assert forall|k: Seq<u8>| self.view_map().contains_key(k) implies self.view_map()[k]
                    == expected[k] by {
                    let q = nk.index_of(k);
                    self.lemma_index(q);
                    old_self.lemma_index(q);
                }
                assert(self.view_map() =~= expected);
            }
        } else {
            let mut names: Vec<String> = Vec::new();
            names.push(name);
            self.entries.push((id.clone(), names));
            proof {
                let nk = self.ids();
                assert(nk =~= ks.push(id@));
                assert(!ks.contains(id@));
                assert(!old_self.view_map().contains_key(id@));
                assert(texts(names@) =~= Seq::<Seq<char>>::empty().push(name@));
                assert forall|a: int, b: int| 0 <= a < b < nk.len() implies nk[a] != nk[b] by {}
                assert forall|k: Seq<u8>| #[trigger] self.view_map().contains_key(k)
                    == expected.contains_key(k) by {
                    if k == id@ {
                        assert(nk[ks.len() as int] == k);
                    }
                    if ks.contains(k) {
                        let q = choose|q: int| 0 <= q < ks.len() && ks[q] == k;
                        assert(nk[q] == k);
                    }
                    if nk.contains(k) && k != id@ {
                        let q = choose|q: int| 0 <= q < nk.len() && nk[q] == k;
                        assert(ks[q] == k);
                    }
                }
                assert forall|k: Seq<u8>| self.view_map().contains_key(k) implies self.view_map()[k]
                    == expected[k] by {
                    let q = nk.index_of(k);
                    self.lemma_index(q);
                    if q < ks.len() {
                        old_self.lemma_index(q);
                    }
                }
                assert(self.view_map() =~= expected);
            }
        }
    }
}

/// What a DPNS registration changes in the explorer's state.
pub enum DpnsNameUpdate {
    /// The name was registered.
    Registered(String),
    /// The registration failed with this message.
    RegistrationFailed(String),
}

/// The message of a DPNS name that was registered.
pub open spec fn dpns_done_text() -> Seq<char> {
    "DPNS name registration successful"@
}

/// Records how the registration of `name` for identity `id` went: on success
/// the name is added, in the form it is remembered under, to the names of `id`,
/// and the answer is the message of success; on failure nothing changes and the
/// answer is the failure's message.
pub fn record_dpns_registration(
    names: &mut KnownNames,
    id: &Vec<u8>,
    name: &String,
    outcome: Result<(), String>,
) -> (r: (Result<String, String>, DpnsNameUpdate))
    requires
        old(names).wf(),
    ensures
        final(names).wf(),
        outcome is Ok ==> {
            &&& final(names).view_map() == old(names).view_map().insert(
                id@,
                if old(names).view_map().contains_key(id@) {
                    old(names).view_map()[id@]
                } else {
                    Seq::empty()
                }.push(remembered_dpns_name(name@)),
            )
            &&& r.0 matches Ok(m) && m@ == dpns_done_text()
            &&& r.1 matches DpnsNameUpdate::Registered(n) && n@ == name@
        },
        outcome matches Err(e) ==> {
            &&& *final(names) == *old(names)
            &&& r.0 matches Err(m) && m@ == e@
            &&& r.1 matches DpnsNameUpdate::RegistrationFailed(m) && m@ == e@
        },
{
    match outcome {
        Ok(()) => {
            let remembered = remembered_dpns_name_of(name.as_str());
            names.add_name(id, remembered);
            (Ok("DPNS name registration successful".to_owned()), DpnsNameUpdate::Registered(name.clone()))
        },
        Err(e) => (Err(e.clone()), DpnsNameUpdate::RegistrationFailed(e)),
    }
}

} // verus!
