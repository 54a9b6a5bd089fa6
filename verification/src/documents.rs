//! The rules of the document tasks: the system fields that a new document
//! carries, the key that signs a task, the price of a purchase, and the
//! answers to the tasks.
use vstd::prelude::*;

use crate::contracts::NamedMap;
use crate::dpns::{document_signing_key_at, find_document_signing_key_at, KeyPurpose, KeyType};
use crate::identity::KeySecurityLevel;
use crate::text::{chars_equal, chars_of, push_str, push_string, string_from_chars};

verus! {

/// The revision of a new document whose type keeps revisions.
pub const INITIAL_REVISION: u64 = 1;

/// Whether `name` is among the required fields.
pub open spec fn requires_field(required: Seq<String>, name: Seq<char>) -> bool {
    exists|i: int| 0 <= i < required.len() && required[i]@ == name
}

fn has_field(required: &Vec<String>, name: &str) -> (r: bool)
    ensures
        r == requires_field(required@, name@),
{
    let n = chars_of(name);
    let mut i: usize = 0;
    while i < required.len()
        invariant
            i <= required@.len(),
            n@ == name@,
            forall|k: int| 0 <= k < i ==> required@[k]@ != name@,
        decreases required@.len() - i,
    {
        if chars_equal(&chars_of(required[i].as_str()), &n) {
            return true;
        }
        i = i + 1;
    }
    false
}

/// The system fields of a new document.
pub struct SystemFields {
    pub revision: Option<u64>,
    pub created_at: Option<u64>,
    pub updated_at: Option<u64>,
    pub created_at_block_height: Option<u64>,
    pub updated_at_block_height: Option<u64>,
    pub created_at_core_block_height: Option<u32>,
    pub updated_at_core_block_height: Option<u32>,
}

/// The system fields of a new document of a type with the given required
/// fields: the first revision where the type keeps revisions, the time (read
/// once for each of the two time fields) where a time field is required, and
/// height 0 where a height field is required.
pub fn document_system_fields(
    required: &Vec<String>,
    requires_revision: bool,
    created_now_ms: u64,
    updated_now_ms: u64,
) -> (r: SystemFields)
    ensures
        r.revision == (if requires_revision {
            Some(INITIAL_REVISION)
        } else {
            None
        }),
        r.created_at == (if requires_field(required@, "$createdAt"@) {
            Some(created_now_ms)
        } else {
            None
        }),
        r.updated_at == (if requires_field(required@, "$updatedAt"@) {
            Some(updated_now_ms)
        } else {
            None
        }),
        r.created_at_block_height == (if requires_field(required@, "$createdAtBlockHeight"@) {
            Some(0u64)
        } else {
            None
        }),
        r.updated_at_block_height == (if requires_field(required@, "$updatedAtBlockHeight"@) {
            Some(0u64)
        } else {
            None
        }),
        r.created_at_core_block_height == (if requires_field(
            required@,
            "$createdAtCoreBlockHeight"@,
        ) {
            Some(0u32)
        } else {
            None
        }),
        r.updated_at_core_block_height == (if requires_field(
            required@,
            "$updatedAtCoreBlockHeight"@,
        ) {
            Some(0u32)
        } else {
            None
        }),
{
    SystemFields {
        revision: if requires_revision {
            Some(INITIAL_REVISION)
        } else {
            None
        },
        created_at: if has_field(required, "$createdAt") {
            Some(created_now_ms)
        } else {
            None
        },
        updated_at: if has_field(required, "$updatedAt") {
            Some(updated_now_ms)
        } else {
            None
        },
        created_at_block_height: if has_field(required, "$createdAtBlockHeight") {
            Some(0)
        } else {
            None
        },
        updated_at_block_height: if has_field(required, "$updatedAtBlockHeight") {
            Some(0)
        } else {
            None
        },
        created_at_core_block_height: if has_field(required, "$createdAtCoreBlockHeight") {
            Some(0)
        } else {
            None
        },
        updated_at_core_block_height: if has_field(required, "$updatedAtCoreBlockHeight") {
            Some(0)
        } else {
            None
        },
    }
}

/// The answer to a purchase of a document that has no price.
pub open spec fn not_for_sale_message() -> Seq<char> {
    "Document is not for sale"@
}

/// The answer to a purchase of a document whose price field cannot be read.
pub open spec fn no_price_field_message(e: Seq<char>) -> Seq<char> {
    "No price field found in the document: "@ + e
}

/// The price that a purchase pays, from the reading of the document's price
/// field: the price where one is set; otherwise the purchase is refused.
pub fn purchase_price(price_field: Result<Option<u64>, String>) -> (r: Result<u64, String>)
    ensures
        price_field matches Ok(Some(p)) ==> r == Ok::<u64, String>(p),
        price_field matches Ok(None) ==> (r matches Err(m) && m@ == not_for_sale_message()),
        price_field matches Err(e) ==> (r matches Err(m) && m@ == no_price_field_message(e@)),
{
    match price_field {
        Ok(Some(price)) => Ok(price),
        Ok(None) => {
            let m = "Document is not for sale".to_owned();
            Err(m)
        },
        Err(e) => {
            let mut out: Vec<char> = Vec::new();
            push_str(&mut out, "No price field found in the document: ");
            push_string(&mut out, &e);
            assert(out@ =~= no_price_field_message(e@));
            Err(string_from_chars(&out))
        },
    }
}

/// The document tasks that change a document of the loaded identity.
pub enum DocumentAction {
    Purchase,
    SetPrice,
    Transfer,
}

/// What a task did to the document, as its answer says it.
pub open spec fn action_done_text(action: DocumentAction) -> Seq<char> {
    match action {
        DocumentAction::Purchase => "Successfully purchased document with id "@,
        DocumentAction::SetPrice => "Successfully updated price of document with id "@,
        DocumentAction::Transfer => "Successfully transferred document with id "@,
    }
}

/// The answer to a task that changed the document with the given id; it says
/// so too where the identity's balance could not be read again afterwards.
pub open spec fn action_done_message(action: DocumentAction, id: Seq<char>, refreshed: bool) -> Seq<
    char,
> {
    action_done_text(action) + id + if refreshed {
        Seq::empty()
    } else {
        " but failed to refresh identity balance after"@
    }
}

/// The answer to a task that changed the document with the given id.
pub fn action_done(action: DocumentAction, id: &String, refreshed: bool) -> (r: String)
    ensures
        r@ == action_done_message(action, id@, refreshed),
{
    let mut out: Vec<char> = Vec::new();
    match action {
        DocumentAction::Purchase => push_str(&mut out, "Successfully purchased document with id "),
        DocumentAction::SetPrice => push_str(
            &mut out,
            "Successfully updated price of document with id ",
        ),
        DocumentAction::Transfer => push_str(&mut out, "Successfully transferred document with id "),
    }
    push_string(&mut out, id);
    if !refreshed {
        push_str(&mut out, " but failed to refresh identity balance after");
    }
    assert(out@ =~= action_done_message(action, id@, refreshed));
    string_from_chars(&out)
}

/// Both answers of a query of documents and of contested resources, or the
/// error of the first that failed.
pub fn combine_query_results<D, C>(documents: Result<D, String>, contested: Result<C, String>) -> (r:
    Result<(D, C), String>)
    ensures
        documents is Ok && contested is Ok ==> r == Ok::<(D, C), String>(
            (documents->Ok_0, contested->Ok_0),
        ),
        documents matches Err(e) ==> (r matches Err(m) && m@ == "Failed to fetch documents: "@
            + e@),
        (documents is Ok && contested is Err) ==> (r matches Err(m) && m@
            == "Failed to fetch contested resources: "@ + contested->Err_0@),
{
    match (documents, contested) {
        (Ok(d), Ok(c)) => Ok((d, c)),
        (Err(e), _) => {
            let mut out: Vec<char> = Vec::new();
            push_str(&mut out, "Failed to fetch documents: ");
            push_string(&mut out, &e);
            Err(string_from_chars(&out))
        },
        (_, Err(e)) => {
            let mut out: Vec<char> = Vec::new();
            push_str(&mut out, "Failed to fetch contested resources: ");
            push_string(&mut out, &e);
            Err(string_from_chars(&out))
        },
    }
}

/// The document tasks that sign a transition with a key of the loaded
/// identity.
pub enum SigningTask {
    /// Broadcast a new document, whose type requires keys of this level.
    Broadcast(KeySecurityLevel),
    Purchase,
    SetPrice,
    Transfer,
}

/// The security level that a task's key must have: the one the document type
/// requires for a broadcast, the critical level otherwise.
pub open spec fn signing_level(task: SigningTask) -> KeySecurityLevel {
    match task {
        SigningTask::Broadcast(level) => level,
        _ => KeySecurityLevel::Critical,
    }
}

/// The refusal of a task where the loaded identity has no key to sign it.
pub open spec fn no_signing_key_text(task: SigningTask) -> Seq<char> {
    match task {
        SigningTask::Broadcast(_) =>
            "Loaded identity does not have a public key matching the criteria for document broadcasts"@,
        SigningTask::Purchase => "No key suitable for purchasing documents in the loaded identity"@,
        SigningTask::SetPrice => "No key suitable for updating document prices in the loaded identity"@,
        SigningTask::Transfer => "Error: identity doesn't have a key for document transfers"@,
    }
}

/// The key that signs a document task: the first key of the loaded identity,
/// in key order, that can sign document transitions at the task's level; the
/// task is refused where there is none.
pub fn document_task_key(task: SigningTask, keys: &Vec<(u32, KeyPurpose, KeySecurityLevel, KeyType)>) -> (r:
    Result<u32, String>)
    ensures
        match document_signing_key_at(keys@, signing_level(task)) {
            Some(k) => r == Ok::<u32, String>(k),
            None => r matches Err(m) && m@ == no_signing_key_text(task),
        },
{
    let level = match &task {
        SigningTask::Broadcast(l) => match l {
            KeySecurityLevel::Master => KeySecurityLevel::Master,
            KeySecurityLevel::Critical => KeySecurityLevel::Critical,
            KeySecurityLevel::High => KeySecurityLevel::High,
            KeySecurityLevel::Medium => KeySecurityLevel::Medium,
        },
        _ => KeySecurityLevel::Critical,
    };
    match find_document_signing_key_at(keys, &level) {
        Some(k) => Ok(k),
        None => Err(
            match task {
                SigningTask::Broadcast(_) =>
                    "Loaded identity does not have a public key matching the criteria for document broadcasts",
                SigningTask::Purchase => "No key suitable for purchasing documents in the loaded identity",
                SigningTask::SetPrice =>
                    "No key suitable for updating document prices in the loaded identity",
                SigningTask::Transfer => "Error: identity doesn't have a key for document transfers",
            }.to_owned(),
        ),
    }
}

/// The contract that a document is broadcast to: the known contract of that
/// name, or the refusal where none is known.
pub fn broadcast_contract<'a, C>(known: &'a NamedMap<C>, contract_name: &String) -> (r: Result<
    &'a C,
    String,
>)
    requires
        known.wf(),
    ensures
        known.view_map().contains_key(contract_name@) ==> (r matches Ok(c) && *c
            == known.view_map()[contract_name@]),
        !known.view_map().contains_key(contract_name@) ==> (r matches Err(m) && m@
            == "Data contract not found in TUI known contracts"@),
{
    match known.get(contract_name) {
        Some(c) => Ok(c),
        None => Err("Data contract not found in TUI known contracts".to_owned()),
    }
}

/// Where the document type named `name` stands among the types of the
/// contract (`type_names`), or the refusal where the contract has none of that
/// name.
pub fn broadcast_document_type(type_names: &Vec<String>, name: &String) -> (r: Result<usize, String>)
    ensures
        r matches Ok(i) ==> i < type_names@.len() && type_names@[i as int]@ == name@,
        r is Err <==> forall|i: int| 0 <= i < type_names@.len() ==> type_names@[i]@ != name@,
        r matches Err(m) ==> m@ == "Document type name not found in data contract"@,
{
    let target = chars_of(name.as_str());
    let mut i: usize = 0;
    while i < type_names.len()
        invariant
            target@ == name@,
            i <= type_names@.len(),
            forall|j: int| 0 <= j < i ==> type_names@[j]@ != name@,
        decreases type_names@.len() - i,
    {
        if chars_equal(&chars_of(type_names[i].as_str()), &target) {
            return Ok(i);
        }
        i = i + 1;
    }
    Err("Document type name not found in data contract".to_owned())
}

/// The document tasks that need a loaded identity.
pub enum IdentityNeed {
    Broadcast,
    Purchase,
    SetPrice,
    Transfer,
    Vote,
}

/// The loaded identity that a document task works with, or the task's answer
/// where none is loaded: a refusal, but for a transfer, which only says so.
pub fn identity_for_task<'a, I>(need: IdentityNeed, loaded: &'a Option<I>) -> (r: Result<
    &'a I,
    Result<String, String>,
>)
    ensures
        loaded matches Some(i) ==> r == Ok::<&I, Result<String, String>>(i),
        loaded is None ==> match need {
            IdentityNeed::Broadcast => r matches Err(Err(m)) && m@ == "No identity loaded"@,
            IdentityNeed::Purchase => r matches Err(Err(m)) && m@
                == "No loaded identity for purchasing documents"@,
            IdentityNeed::SetPrice => r matches Err(Err(m)) && m@
                == "No loaded identity for updating document prices"@,
            IdentityNeed::Transfer => r matches Err(Ok(m)) && m@
                == "No loaded identity for document transfer"@,
            IdentityNeed::Vote => r matches Err(Err(m)) && m@
                == "No loaded identity for signing vote transaction"@,
        },
{
    match loaded {
        Some(i) => Ok(i),
        None => Err(
            match need {
                IdentityNeed::Broadcast => Err("No identity loaded".to_owned()),
                IdentityNeed::Purchase => Err("No loaded identity for purchasing documents".to_owned()),
                IdentityNeed::SetPrice => Err(
                    "No loaded identity for updating document prices".to_owned(),
                ),
                IdentityNeed::Transfer => Ok("No loaded identity for document transfer".to_owned()),
                IdentityNeed::Vote => Err(
                    "No loaded identity for signing vote transaction".to_owned(),
                ),
            },
        ),
    }
}

/// The id of the first key, in key order, whose purpose is voting.
pub open spec fn voting_key_of(keys: Seq<(u32, KeyPurpose, KeySecurityLevel, KeyType)>) -> Option<u32>
    decreases keys.len(),
{
    if keys.len() == 0 {
        None
    } else if keys[0].1 is Voting {
        Some(keys[0].0)
    } else {
        voting_key_of(keys.drop_first())
    }
}

/// The key that signs a vote: the first voting key of the loaded identity, of
/// any level and type; refused where it has none.
pub fn voting_key(keys: &Vec<(u32, KeyPurpose, KeySecurityLevel, KeyType)>) -> (r: Result<u32, String>)
    ensures
        match voting_key_of(keys@) {
            Some(k) => r == Ok::<u32, String>(k),
            None => r matches Err(m) && m@
                == "No voting key in the loaded identity. Are you sure it's a masternode identity?"@,
        },
{
    let mut i: usize = 0;
    assert(keys@.skip(0) =~= keys@);
    while i < keys.len()
        invariant
            i <= keys@.len(),
            voting_key_of(keys@) == voting_key_of(keys@.skip(i as int)),
        decreases keys@.len() - i,
    {
        proof {
            assert(keys@.skip(i as int).drop_first() =~= keys@.skip(i + 1));
        }
        let is_voting = match keys[i].1 {
            KeyPurpose::Voting => true,
            _ => false,
        };
        if is_voting {
            return Ok(keys[i].0);
        }
        i = i + 1;
    }
    Err("No voting key in the loaded identity. Are you sure it's a masternode identity?".to_owned())
}

/// The end time of a vote poll: the first end time, in the order the platform
/// gives the polls by end time, whose polls include it (the flag of each
/// entry), if any.
pub fn vote_poll_end_time(by_end_time: &Vec<(u64, bool)>) -> (r: Option<u64>)
    ensures
        r is None <==> forall|i: int| 0 <= i < by_end_time@.len() ==> !by_end_time@[i].1,
        r matches Some(t) ==> exists|i: int|
            0 <= i < by_end_time@.len() && by_end_time@[i] == (t, true) && forall|j: int|
                0 <= j < i ==> !by_end_time@[j].1,
{
    let mut i: usize = 0;
    while i < by_end_time.len()
        invariant
            i <= by_end_time@.len(),
            forall|j: int| 0 <= j < i ==> !by_end_time@[j].1,
        decreases by_end_time@.len() - i,
    {
        if by_end_time[i].1 {
            return Some(by_end_time[i].0);
        }
        i = i + 1;
    }
    None
}

/// The refusal of a query of contested resources where the document type has
/// no contested index.
pub open spec fn no_contested_index_message() -> Seq<char> {
    "No contested index for this document type"@
}

/// The contested index to query, by its position among the document type's
/// indices, or the refusal where the type has no contested one: the first
/// contested index.
pub fn contested_index(contested: &Vec<bool>) -> (r: Result<usize, String>)
    ensures
        r matches Ok(i) ==> i < contested@.len() && contested@[i as int] && forall|j: int|
            0 <= j < i ==> !contested@[j],
        r is Err <==> forall|i: int| 0 <= i < contested@.len() ==> !contested@[i],
        r matches Err(m) ==> m@ == no_contested_index_message(),
{
    let mut i: usize = 0;
    while i < contested.len()
        invariant
            i <= contested@.len(),
            forall|j: int| 0 <= j < i ==> !contested@[j],
        decreases contested@.len() - i,
    {
        if contested[i] {
            return Ok(i);
        }
        i = i + 1;
    }
    Err("No contested index for this document type".to_owned())
}

} // verus!
