//! The identity tasks that the explorer runs, and the answer that each gives.
use vstd::prelude::*;

use crate::identity::{
    id_differs, identity_not, key_entries, known_ids, master_key_id, entry_not_of, IdentityBook,
    KeySecurityLevel,
};
use crate::text::{push_str, push_string, string_from_chars};

verus! {

/// The tasks on identities, by kind.
pub enum IdentityTaskKind {
    RegisterIdentity,
    LoadKnownIdentity,
    ContinueRegisteringIdentity,
    ClearRegistrationOfIdentityInProgress,
    ClearLoadedIdentity,
    Refresh,
    RefreshAllKnown,
    TopUpIdentity,
    WithdrawFromIdentity,
    CopyIdentityId,
    AddIdentityKey,
    TransferCredits,
    LoadMasternodeIdentity,
    RegisterDpnsName,
    AddPrivateKeys,
    LoadIdentityById,
    ForgetIdentity,
}

/// The message of a task that was done.
pub open spec fn identity_task_done_text(kind: IdentityTaskKind) -> Seq<char> {
    match kind {
        IdentityTaskKind::RegisterIdentity =>
            "Executed successfully.\n\nPrivate keys were logged to supporting_files/new_identity_private_keys.log\n\nIt's recommended that you copy this file to a safe place so you don't lost your funds."@,
        IdentityTaskKind::LoadKnownIdentity => "Successfully loaded identity"@,
        IdentityTaskKind::ContinueRegisteringIdentity => "Executed successfully"@,
        IdentityTaskKind::ClearRegistrationOfIdentityInProgress =>
            "Cleared registration of identity in progress"@,
        IdentityTaskKind::ClearLoadedIdentity => "Cleared loaded identity"@,
        IdentityTaskKind::Refresh => "Executed successfully"@,
        IdentityTaskKind::RefreshAllKnown => "Executed successfully"@,
        IdentityTaskKind::TopUpIdentity => "Top up success"@,
        IdentityTaskKind::WithdrawFromIdentity => "Successful withdrawal"@,
        IdentityTaskKind::CopyIdentityId => "Copied Identity Id"@,
        IdentityTaskKind::AddIdentityKey => "Successfully added a key to the identity"@,
        IdentityTaskKind::TransferCredits => "Credit transfer successful."@,
        IdentityTaskKind::LoadMasternodeIdentity => "Loaded Evonode Identity"@,
        IdentityTaskKind::RegisterDpnsName => "DPNS name registration successful"@,
        IdentityTaskKind::AddPrivateKeys => "Added identity"@,
        IdentityTaskKind::LoadIdentityById => "Loaded identity from base58 id"@,
        IdentityTaskKind::ForgetIdentity => "Successfully removed identity from TUI state"@,
    }
}

/// The answer of an identity task: the message of success, or the message of
/// its error; a failed copy of the identifier means that the clipboard is not
/// there, and a failed addition of private keys says so before its error.
pub open spec fn identity_task_answer_spec(kind: IdentityTaskKind, outcome: Result<(), Seq<char>>) -> Result<
    Seq<char>,
    Seq<char>,
> {
    match outcome {
        Ok(()) => Ok(identity_task_done_text(kind)),
        Err(e) => match kind {
            IdentityTaskKind::CopyIdentityId => Err("Clipboard is not supported"@),
            IdentityTaskKind::AddPrivateKeys => Err(
                "Failed to add identity with private keys: "@ + e,
            ),
            _ => Err(e),
        },
    }
}

/// The answer of the tasks that look for a loaded identity before their work,
/// where none is loaded: adding a key and copying the identifier are refused, a
/// credit transfer only says so. The other tasks report it from their work.
pub open spec fn no_loaded_identity_answer_spec(kind: IdentityTaskKind) -> Option<
    Result<Seq<char>, Seq<char>>,
> {
    match kind {
        IdentityTaskKind::AddIdentityKey => Some(Err("No identity loaded"@)),
        IdentityTaskKind::CopyIdentityId => Some(Err("Failed to copy Identity Id"@)),
        IdentityTaskKind::TransferCredits => Some(Ok("No loaded identity for credit transfer"@)),
        _ => None,
    }
}

fn done_text(kind: &IdentityTaskKind) -> (r: &'static str)
    ensures
        r@ == identity_task_done_text(*kind),
{
    match kind {
        IdentityTaskKind::RegisterIdentity =>
            "Executed successfully.\n\nPrivate keys were logged to supporting_files/new_identity_private_keys.log\n\nIt's recommended that you copy this file to a safe place so you don't lost your funds.",
        IdentityTaskKind::LoadKnownIdentity => "Successfully loaded identity",
        IdentityTaskKind::ContinueRegisteringIdentity => "Executed successfully",
        IdentityTaskKind::ClearRegistrationOfIdentityInProgress =>
            "Cleared registration of identity in progress",
        IdentityTaskKind::ClearLoadedIdentity => "Cleared loaded identity",
        IdentityTaskKind::Refresh => "Executed successfully",
        IdentityTaskKind::RefreshAllKnown => "Executed successfully",
        IdentityTaskKind::TopUpIdentity => "Top up success",
        IdentityTaskKind::WithdrawFromIdentity => "Successful withdrawal",
        IdentityTaskKind::CopyIdentityId => "Copied Identity Id",
        IdentityTaskKind::AddIdentityKey => "Successfully added a key to the identity",
        IdentityTaskKind::TransferCredits => "Credit transfer successful.",
        IdentityTaskKind::LoadMasternodeIdentity => "Loaded Evonode Identity",
        IdentityTaskKind::RegisterDpnsName => "DPNS name registration successful",
        IdentityTaskKind::AddPrivateKeys => "Added identity",
        IdentityTaskKind::LoadIdentityById => "Loaded identity from base58 id",
        IdentityTaskKind::ForgetIdentity => "Successfully removed identity from TUI state",
    }
}

/// The answer that an identity task gives for how its work went.
pub fn identity_task_answer(kind: &IdentityTaskKind, outcome: Result<(), String>) -> (r: Result<
    String,
    String,
>)
    ensures
        match (r, identity_task_answer_spec(
            *kind,
            match outcome {
                Ok(()) => Ok(()),
                Err(e) => Err(e@),
            },
        )) {
            (Ok(m), Ok(t)) => m@ == t,
            (Err(m), Err(t)) => m@ == t,
            _ => false,
        },
{
    match outcome {
        Ok(()) => Ok(done_text(kind).to_owned()),
        Err(e) => match kind {
            IdentityTaskKind::CopyIdentityId => Err("Clipboard is not supported".to_owned()),
            IdentityTaskKind::AddPrivateKeys => {
                let mut out: Vec<char> = Vec::new();
                push_str(&mut out, "Failed to add identity with private keys: ");
                push_string(&mut out, &e);
                Err(string_from_chars(&out))
            },
            _ => Err(e),
        },
    }
}

/// The answer of a task that looks for a loaded identity first, where none is
/// loaded; `None` for the tasks that report it from their work.
pub fn no_loaded_identity_answer(kind: &IdentityTaskKind) -> (r: Option<Result<String, String>>)
    ensures
        match (r, no_loaded_identity_answer_spec(*kind)) {
            (None, None) => true,
            (Some(Ok(m)), Some(Ok(t))) => m@ == t,
            (Some(Err(m)), Some(Err(t))) => m@ == t,
            _ => false,
        },
{
    match kind {
        IdentityTaskKind::AddIdentityKey => Some(Err("No identity loaded".to_owned())),
        IdentityTaskKind::CopyIdentityId => Some(Err("Failed to copy Identity Id".to_owned())),
        IdentityTaskKind::TransferCredits => Some(
            Ok("No loaded identity for credit transfer".to_owned()),
        ),
        _ => None,
    }
}

/// The refusal to load a known identity for which no private key is known.
pub open spec fn no_known_keys_message() -> Seq<char> {
    "No private keys known for this identity. Try loading it with the private keys."@
}

/// Whether the known identity `id` can be loaded: only where some private key of
/// it is known.
pub fn check_known_identity_loadable<I>(book: &IdentityBook<I>, id: &Vec<u8>) -> (r: Result<
    (),
    String,
>)
    ensures
        r is Ok <==> book.spec_has_keys_for(id@),
        r matches Err(m) ==> m@ == no_known_keys_message(),
{
    if book.has_private_keys_for(id) {
        Ok(())
    } else {
        Err("No private keys known for this identity. Try loading it with the private keys.".to_owned())
    }
}

/// The master key that signs the addition of a key to an identity: the first
/// master key, in key order, and its private key; fails where the identity has
/// no master key, or where its private key is not known.
pub fn master_key_for_update<I>(
    book: &IdentityBook<I>,
    id: &Vec<u8>,
    keys: &Vec<(u32, KeySecurityLevel)>,
) -> (r: Result<(u32, Vec<u8>), String>)
    requires
        book.wf(),
    ensures
        (forall|i: int| 0 <= i < keys@.len() ==> !(keys@[i].1 is Master)) ==> (r matches Err(m)
            && m@ == "No master key found for identity"@),
        r matches Ok((key_id, private_key)) ==> {
            &&& exists|i: int|
                0 <= i < keys@.len() && keys@[i].0 == key_id && keys@[i].1 is Master && forall|
                    j: int,
                | 0 <= j < i ==> !(keys@[j].1 is Master)
            &&& exists|k: int|
                0 <= k < book.private_keys@.len() && book.private_keys@[k].identity_id@ == id@
                    && book.private_keys@[k].key_id == key_id
                    && book.private_keys@[k].private_key@ == private_key@
        },
        r matches Err(m) ==> (m@ == "No master key found for identity"@ && forall|i: int|
            0 <= i < keys@.len() ==> !(keys@[i].1 is Master)) || (m@
            == "Master private key not found"@ && exists|i: int|
            0 <= i < keys@.len() && keys@[i].1 is Master && (forall|j: int|
                0 <= j < i ==> !(keys@[j].1 is Master)) && !exists|k: int|
                0 <= k < book.private_keys@.len() && book.private_keys@[k].identity_id@ == id@
                    && book.private_keys@[k].key_id == keys@[i].0),
{
    match master_key_id(keys) {
        None => Err("No master key found for identity".to_owned()),
        Some(key_id) => match book.private_key_for(id, key_id) {
            Some(private_key) => Ok((key_id, private_key.clone())),
            None => Err("Master private key not found".to_owned()),
        },
    }
}

/// Forgets the identity `id` (see `IdentityBook::forget_identity`) and gives the
/// task's answer.
pub fn run_forget_identity<I>(book: &mut IdentityBook<I>, id: &Vec<u8>) -> (r: String)
    requires
        old(book).wf(),
    ensures
        final(book).wf(),
        final(book).known@ == old(book).known@.filter(identity_not(id@)),
        known_ids(final(book).known@) == known_ids(old(book).known@).filter(id_differs(id@)),
        key_entries(final(book).private_keys@) == key_entries(old(book).private_keys@).filter(
            entry_not_of(id@),
        ),
        match old(book).loaded {
            Some(l) => if l.id@ == id@ {
                final(book).loaded is None
            } else {
                final(book).loaded == old(book).loaded
            },
            None => final(book).loaded is None,
        },
        r@ == identity_task_done_text(IdentityTaskKind::ForgetIdentity),
{
    book.forget_identity(id);
    done_text(&IdentityTaskKind::ForgetIdentity).to_owned()
}

} // verus!
