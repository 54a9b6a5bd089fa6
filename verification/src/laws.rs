//! Properties that span several functions of the library.
use vstd::prelude::*;

use crate::address_pool::index_after;
use crate::amounts::{lemma_sum_concat, lemma_sum_take_succ, sum_u64};
use crate::split::{distinct_indices, MAX_OUTPUTS_PER_TRANSACTION, paid_outputs, unspent_prefix, values_at};
use crate::wallet::{utxo_values, Utxo, UtxoView};
use crate::identity::{
    entry_not_of, key_entries, registration_failure, slot_after, slot_step, top_up_after,
    top_up_failure, IdentityBook, RegistrationEvent, RegistrationSlot, RegistrationStep,
    TopUpEvent, TopUpRun,
};
use crate::navigation::{after_next, after_prev, NavigationView, Screen};
use crate::load::{
    all_can_take, check_action_spec, deadline_passed_spec, load_after, load_after_all,
    returned_contracts, taken_contracts, CheckAction, CheckOutcome, LoadEvent, LoadTestState,
};
use crate::runs::{broadcast_error_kind, run_continues, BroadcastErrorKind};
use crate::dpns::{document_signing_key, lemma_document_signing_key_at, KeyPurpose, KeyType};
use crate::identity::{KeySecurityLevel, TopUpSlot};
use crate::text::contains_text;
use crate::strategy::StrategyRegistry;

verus! {

/// Going back after going on to a screen returns to where the explorer was.
pub proof fn law_back_undoes_next(v: NavigationView, screen: Screen)
    ensures
        after_prev(after_next(v, screen)) == v,
{
    assert(v.trail.push(v.current).drop_last() =~= v.trail);
}

/// The private key recorded for a key of an identity is the one that is read
/// back for that key: a book in order holds one key for each key of an identity.
pub proof fn law_key_read_after_insert<I>(book: IdentityBook<I>, id: Seq<u8>, key_id: u32, key: Seq<u8>)
    requires
        book.wf(),
        key_entries(book.private_keys@).contains((id, key_id, key)),
    ensures
        exists|k: int|
            0 <= k < book.private_keys@.len() && book.private_keys@[k].identity_id@ == id
                && book.private_keys@[k].key_id == key_id,
        forall|k: int|
            0 <= k < book.private_keys@.len() && book.private_keys@[k].identity_id@ == id
                && book.private_keys@[k].key_id == key_id ==> book.private_keys@[k].private_key@
                == key,
{
    let es = key_entries(book.private_keys@);
    let j = choose|j: int| 0 <= j < es.len() && es[j] == (id, key_id, key);
    assert(book.private_keys@[j].identity_id@ == id && book.private_keys@[j].key_id == key_id);
    assert forall|k: int|
        0 <= k < book.private_keys@.len() && book.private_keys@[k].identity_id@ == id
            && book.private_keys@[k].key_id == key_id implies book.private_keys@[k].private_key@
        == key by {
        if k < j {
            assert(!(book.private_keys@[k].identity_id@ == book.private_keys@[j].identity_id@
                && book.private_keys@[k].key_id == book.private_keys@[j].key_id));
        } else if j < k {
            assert(!(book.private_keys@[j].identity_id@ == book.private_keys@[k].identity_id@
                && book.private_keys@[j].key_id == book.private_keys@[k].key_id));
        }
        assert(es[j] == (
            book.private_keys@[j].identity_id@,
            book.private_keys@[j].key_id,
            book.private_keys@[j].private_key@,
        ));
    }
}

/// Once an identity is forgotten, no private key is known for it.
pub proof fn law_forgotten_identity_has_no_keys<I>(
    before: IdentityBook<I>,
    after: IdentityBook<I>,
    id: Seq<u8>,
)
    requires
        key_entries(after.private_keys@) == key_entries(before.private_keys@).filter(
            entry_not_of(id),
        ),
    ensures
        !after.spec_has_keys_for(id),
{
    broadcast use vstd::seq_lib::group_filter_ensures;

    if after.spec_has_keys_for(id) {
        let k = choose|k: int|
            0 <= k < after.private_keys@.len() && after.private_keys@[k].identity_id@ == id;
        let es = key_entries(before.private_keys@).filter(entry_not_of(id));
        assert(key_entries(after.private_keys@)[k].0 == id);
        assert(entry_not_of(id)(es[k]));
    }
}

/// Deleting a strategy that was just created leaves every other strategy as it
/// was before the creation, and the deleted name is gone.
pub proof fn law_delete_undoes_create<S>(
    before: StrategyRegistry<S>,
    created: StrategyRegistry<S>,
    deleted: StrategyRegistry<S>,
    name: Seq<char>,
)
    requires
        created.has(name),
        created.others_unchanged(&before, name),
        !deleted.has(name),
        deleted.others_unchanged(&created, name),
    ensures
        forall|k: Seq<char>| deleted.has(k) <==> (k != name && before.has(k)),
        forall|k: Seq<char>|
            k != name && before.has(k) ==> deleted.strategy_of(k) == before.strategy_of(k)
                && deleted.contract_names_of(k) == before.contract_names_of(k),
{
}

/// A pool of addresses hands them out in turn: after `k` handed out, the one at
/// `start + k` (counted round the pool) is next, and after as many as it holds,
/// the pool is back where it started.
pub proof fn law_round_robin(start: int, len: int, k: nat)
    requires
        0 <= start < len,
    ensures
        index_after(start, len, k) == (start + k) % len,
        index_after(start, len, len as nat) == start,
{
    lemma_index_after(start, len, k);
    lemma_index_after(start, len, len as nat);
    vstd::arithmetic::div_mod::lemma_mod_add_multiples_vanish(start, len);
    vstd::arithmetic::div_mod::lemma_small_mod(start as nat, len as nat);
}

proof fn lemma_index_after(start: int, len: int, k: nat)
    requires
        0 <= start < len,
    ensures
        index_after(start, len, k) == (start + k) % len,
    decreases k,
{
    if k == 0 {
        vstd::arithmetic::div_mod::lemma_small_mod(start as nat, len as nat);
    } else {
        lemma_index_after(start, len, (k - 1) as nat);
        let y = start + k - 1;
        vstd::arithmetic::div_mod::lemma_add_mod_noop_right(1, y, len);
        assert(index_after(start, len, k) == (y % len + 1) % len);
        assert((1 + y % len) % len == (1 + y) % len);
        assert(y % len + 1 == 1 + y % len);
        assert(1 + y == start + k);
    }
}

/// No broadcast failure is ever counted as a timeout: every failure that is not
/// a balance or nonce error counts as a rate limit error.
pub proof fn law_no_timeout_class(message: Seq<char>)
    ensures
        broadcast_error_kind(message) != BroadcastErrorKind::BroadcastTimeout,
{
}

/// The values of outputs given as plain values.
pub open spec fn view_values(s: Seq<UtxoView>) -> Seq<u64> {
    s.map_values(|v: UtxoView| v.value)
}

/// What the outputs at the listed indices among the first `n` hold.
pub open spec fn spent_sum(vals: Seq<u64>, inputs: Seq<usize>, n: int) -> nat
    decreases n,
{
    if n <= 0 {
        0
    } else {
        spent_sum(vals, inputs, n - 1) + if inputs.contains((n - 1) as usize) {
            vals[n - 1] as nat
        } else {
            0
        }
    }
}

proof fn lemma_unspent_and_spent(utxos: Seq<Utxo>, inputs: Seq<usize>, n: int)
    requires
        0 <= n <= utxos.len(),
        utxos.len() <= usize::MAX,
    ensures
        sum_u64(view_values(unspent_prefix(utxos, inputs, n))) + spent_sum(
            utxo_values(utxos),
            inputs,
            n,
        ) == sum_u64(utxo_values(utxos).take(n)),
    decreases n,
{
    if n > 0 {
        lemma_unspent_and_spent(utxos, inputs, n - 1);
        let before = unspent_prefix(utxos, inputs, n - 1);
        let extra: Seq<UtxoView> = if inputs.contains((n - 1) as usize) {
            Seq::empty()
        } else {
            seq![utxos[n - 1]@]
        };
        assert(unspent_prefix(utxos, inputs, n) == before + extra);
        assert(view_values(before + extra) =~= view_values(before) + view_values(extra));
        lemma_sum_concat(view_values(before), view_values(extra));
        lemma_sum_take_succ(utxo_values(utxos), n - 1);
        assert(utxo_values(utxos)[n - 1] == utxos[n - 1].value);
        if !inputs.contains((n - 1) as usize) {
            let t = seq![utxos[n - 1].value];
            assert(view_values(extra) =~= t);
            assert(t.drop_last() =~= Seq::<u64>::empty());
            assert(sum_u64(Seq::<u64>::empty()) == 0);
            assert(t.len() == 1 && t.last() == utxos[n - 1].value);
            assert(sum_u64(t) == utxos[n - 1].value);
        } else {
            assert(view_values(extra) =~= Seq::<u64>::empty());
        }
    }
}

proof fn lemma_spent_sum_push(vals: Seq<u64>, inputs: Seq<usize>, p: usize, n: int)
    requires
        !inputs.contains(p),
        0 <= n <= vals.len(),
        vals.len() <= usize::MAX,
        p < vals.len(),
    ensures
        spent_sum(vals, inputs.push(p), n) == spent_sum(vals, inputs, n) + if p < n {
            vals[p as int] as nat
        } else {
            0
        },
    decreases n,
{
    if n > 0 {
        lemma_spent_sum_push(vals, inputs, p, n - 1);
        let j = (n - 1) as usize;
        assert(inputs.push(p).contains(j) <==> (inputs.contains(j) || j == p)) by {
            if inputs.push(p).contains(j) {
                let q = choose|q: int| 0 <= q < inputs.push(p).len() && inputs.push(p)[q] == j;
                if q < inputs.len() {
                    assert(inputs[q] == j);
                }
            }
            if inputs.contains(j) {
                let q = choose|q: int| 0 <= q < inputs.len() && inputs[q] == j;
                assert(inputs.push(p)[q] == j);
            }
            if j == p {
                assert(inputs.push(p)[inputs.len() as int] == j);
            }
        }
    }
}

proof fn lemma_inputs_sum(vals: Seq<u64>, inputs: Seq<usize>)
    requires
        vals.len() <= usize::MAX,
        distinct_indices(inputs),
        forall|k: int| 0 <= k < inputs.len() ==> inputs[k] < vals.len(),
    ensures
        sum_u64(values_at(vals, inputs)) == spent_sum(vals, inputs, vals.len() as int),
    decreases inputs.len(),
{
    if inputs.len() == 0 {
        lemma_spent_sum_none(vals, inputs, vals.len() as int);
        assert(values_at(vals, inputs) =~= Seq::<u64>::empty());
    } else {
        let rest = inputs.drop_last();
        let p = inputs.last();
        assert(inputs =~= rest.push(p));
        assert(!rest.contains(p)) by {
            if rest.contains(p) {
                let q = choose|q: int| 0 <= q < rest.len() && rest[q] == p;
                assert(inputs[q] == inputs[inputs.len() - 1]);
            }
        }
        lemma_inputs_sum(vals, rest);
        lemma_spent_sum_push(vals, rest, p, vals.len() as int);
        assert(values_at(vals, inputs).drop_last() =~= values_at(vals, rest));
    }
}

proof fn lemma_spent_sum_none(vals: Seq<u64>, inputs: Seq<usize>, n: int)
    requires
        inputs.len() == 0,
    ensures
        spent_sum(vals, inputs, n) == 0,
    decreases n,
{
    if n > 0 {
        lemma_spent_sum_none(vals, inputs, n - 1);
    }
}

/// A split transaction keeps the wallet's value: what the wallet holds after it
/// and what the spent outputs held together equal what the wallet held before
/// and what the new outputs pay.
pub proof fn law_split_keeps_value(
    utxos: Seq<Utxo>,
    inputs: Seq<usize>,
    txid: Seq<u8>,
    script: Seq<u8>,
    values: Seq<u64>,
)
    requires
        utxos.len() <= usize::MAX,
        distinct_indices(inputs),
        forall|k: int| 0 <= k < inputs.len() ==> inputs[k] < utxos.len(),
    ensures
        sum_u64(view_values(unspent_prefix(utxos, inputs, utxos.len() as int) + paid_outputs(
            txid,
            script,
            values,
        ))) + sum_u64(values_at(utxo_values(utxos), inputs)) == sum_u64(utxo_values(utxos))
            + sum_u64(values),
{
    let kept = unspent_prefix(utxos, inputs, utxos.len() as int);
    let paid = paid_outputs(txid, script, values);
    lemma_unspent_and_spent(utxos, inputs, utxos.len() as int);
    assert(utxo_values(utxos).take(utxos.len() as int) =~= utxo_values(utxos));
    lemma_inputs_sum(utxo_values(utxos), inputs);
    assert(view_values(kept + paid) =~= view_values(kept) + view_values(paid));
    lemma_sum_concat(view_values(kept), view_values(paid));
    assert(view_values(paid) =~= values);
}

/// A failed step of a registration keeps the asset lock transaction, its key,
/// its proof and the identity where they were stored, so the next attempt
/// resumes at the same step instead of spending the wallet again.
pub proof fn law_failed_registration_resumes<T, K, P, D>(
    slot: Option<RegistrationSlot<T, K, P, D>>,
    event: RegistrationEvent<T, K, P, D>,
)
    requires
        registration_failure(event) is Some,
    ensures
        slot_after(slot, event) == slot,
        slot_step(slot_after(slot, event)) == slot_step(slot),
{
}

/// What is stored of a registration is used again and never replaced: until the
/// identity is put, each step keeps the stored transaction, key, proof and
/// identity, and a new asset lock is made only where none is stored.
pub proof fn law_stored_registration_reused<T, K, P, D>(
    s: RegistrationSlot<T, K, P, D>,
    event: RegistrationEvent<T, K, P, D>,
)
    requires
        !(event is Put),
    ensures
        slot_after(Some(s), event) matches Some(n) && n.asset_lock_transaction
            == s.asset_lock_transaction && n.asset_lock_key == s.asset_lock_key && (
        s.asset_lock_proof is Some ==> n.asset_lock_proof == s.asset_lock_proof) && (
        s.identity is Some ==> n.identity == s.identity),
        slot_step(Some(s)) != RegistrationStep::CreateAssetLockTransaction,
{
}

/// A block mode run of `blocks` blocks from height `start`, whose rounds each
/// advance the height by one from round 1, goes on for exactly `blocks + 2`
/// rounds (the two setup blocks and the blocks asked for), so the height it
/// finishes at, and reports, is `start + blocks + 2`.
pub proof fn law_block_run_final_height(start: nat, blocks: nat, elapsed_secs: int)
    ensures
        forall|k: nat|
            k < blocks + 2 ==> #[trigger] run_continues(
                true,
                (start + k) as int,
                start as int,
                blocks as int,
                elapsed_secs,
                (k + 1) as int,
            ),
        !run_continues(
            true,
            (start + blocks + 2) as int,
            start as int,
            blocks as int,
            elapsed_secs,
            (blocks + 3) as int,
        ),
{
}

/// After a run ends, none of the contracts that its contract creations added
/// is known any more.
pub proof fn law_run_contracts_forgotten<C>(known: Map<Seq<char>, C>, new_contract_ids: Seq<String>, j: int)
    requires
        0 <= j < new_contract_ids.len(),
    ensures
        !known.remove_keys(new_contract_ids.map_values(|s: String| s@).to_set()).contains_key(
            new_contract_ids[j]@,
        ),
{
    let ids = new_contract_ids.map_values(|s: String| s@);
    assert(ids[j] == new_contract_ids[j]@);
    assert(ids.to_set().contains(ids[j]));
}

/// With a time to wait of 0 the load test does not wait for documents: any
/// check either counts the document or gives it up, so each broadcast document
/// is checked once and its contract is freed.
pub proof fn law_no_waiting_checks_once(outcome: CheckOutcome, elapsed_ns: u128)
    ensures
        check_action_spec(outcome, deadline_passed_spec(elapsed_ns, 0)) != CheckAction::Retry,
{
}

/// A split into `desired` outputs makes `ceil(desired / 24)` transactions, each
/// of at most 24 outputs and at most the outputs that remain: after `i` of
/// them at least `desired - 24 i` outputs remain, so each transaction of the
/// split still has at least one output to make.
pub proof fn law_split_transactions_have_outputs(desired: int, i: int, remaining: int, made: int)
    requires
        0 <= i,
        0 <= remaining,
        remaining >= desired - MAX_OUTPUTS_PER_TRANSACTION * i,
        i < (desired + MAX_OUTPUTS_PER_TRANSACTION - 1) / (MAX_OUTPUTS_PER_TRANSACTION as int),
        0 <= made <= remaining,
        made <= MAX_OUTPUTS_PER_TRANSACTION,
    ensures
        remaining >= 1,
        remaining - made >= desired - MAX_OUTPUTS_PER_TRANSACTION * (i + 1),
{
}

/// A step of a top up that fails leaves what is stored of it as it was, so the
/// next attempt resumes with the same asset lock; and a top up starts over with
/// a new asset lock at most once in a run: after that, a failed top up ends it.
pub proof fn law_failed_top_up_resumes<T, K, P>(run: TopUpRun<T, K, P>, event: TopUpEvent<T, K, P>)
    ensures
        top_up_failure(run, event) is Some ==> top_up_after(run, event) == run,
        (run.started_over && event is TopUpFailed) ==> top_up_failure(run, event) is Some,
{
}

/// The contracts available to a load test are those it started with, less
/// those taken by reservations, plus those handed back by failed broadcasts and
/// by checks that end: after any history of events that could happen, every
/// contract is still in exactly one place and at most all are available.
pub proof fn law_available_contracts_count(s: LoadTestState, events: Seq<LoadEvent>)
    requires
        s.wf(),
        all_can_take(s, events),
    ensures
        load_after_all(s, events).wf(),
        load_after_all(s, events).contracts == s.contracts,
        load_after_all(s, events).available == s.available - taken_contracts(events)
            + returned_contracts(events),
        load_after_all(s, events).available <= s.contracts,
    decreases events.len(),
{
    if events.len() > 0 {
        let e = events[0];
        let n = load_after(s, e);
        assert(n.wf() && n.contracts == s.contracts);
        law_available_contracts_count(n, events.drop_first());
    }
}

/// After its two setup rounds, a block mode run goes on exactly while the
/// chain height is below the start height plus the blocks asked for plus the
/// two setup blocks, whatever round it is in; a time mode run exactly while the
/// seconds asked for have not passed; the setup rounds always run.
pub proof fn law_run_goes_on_by_height_or_time(
    height: int,
    initial_height: int,
    blocks_or_seconds: int,
    elapsed_secs: int,
    loop_index: int,
)
    ensures
        loop_index <= 2 ==> run_continues(true, height, initial_height, blocks_or_seconds, elapsed_secs, loop_index),
        loop_index <= 2 ==> run_continues(false, height, initial_height, blocks_or_seconds, elapsed_secs, loop_index),
        loop_index > 2 ==> (run_continues(
            true,
            height,
            initial_height,
            blocks_or_seconds,
            elapsed_secs,
            loop_index,
        ) <==> height < initial_height + blocks_or_seconds + 2),
        loop_index > 2 ==> (run_continues(
            false,
            height,
            initial_height,
            blocks_or_seconds,
            elapsed_secs,
            loop_index,
        ) <==> elapsed_secs < blocks_or_seconds),
{
}

/// A registration resumes at the first part that is not stored: a new asset
/// lock only where nothing is stored, its proof only where none is stored,
/// then the identity where the proof is stored and the identity is not, and
/// the put once both are.
pub proof fn law_registration_resumes_at_first_missing<T, K, P, D>(
    slot: Option<RegistrationSlot<T, K, P, D>>,
)
    ensures
        (slot_step(slot) is CreateAssetLockTransaction) <==> slot is None,
        (slot_step(slot) is RetrieveAssetLockProof) <==> (slot matches Some(s)
            && s.asset_lock_proof is None),
        (slot_step(slot) is CreateIdentity) <==> (slot matches Some(s) && s.asset_lock_proof is Some
            && s.identity is None),
        (slot_step(slot) is PutIdentity) <==> (slot matches Some(s) && s.asset_lock_proof is Some
            && s.identity is Some),
{
}

/// The first failed top up of a run whose platform client reports that the
/// transition is already in the chain, or that the asset lock is already
/// completely used, starts over: it does not fail, keeps what is stored, and
/// marks the stored asset lock to be replaced; any other failed top up fails.
pub proof fn law_top_up_starts_over_on_used_asset_lock<T, K, P>(
    slot: Option<TopUpSlot<T, K, P>>,
    replace_asset_lock: bool,
    started_over: bool,
    message: String,
    client_text: Option<String>,
)
    ensures
        ({
            let run = TopUpRun { slot, replace_asset_lock, started_over };
            let event = TopUpEvent::<T, K, P>::TopUpFailed(message, client_text);
            (!started_over && (client_text matches Some(t) && (contains_text(
                t@,
                "state transition already in chain"@,
            ) || contains_text(t@, "already completely used"@)))) ==> {
                &&& top_up_failure(run, event) is None
                &&& top_up_after(run, event).replace_asset_lock
                &&& top_up_after(run, event).started_over
                &&& top_up_after(run, event).slot == slot
            }
        }),
        ({
            let run = TopUpRun { slot, replace_asset_lock, started_over };
            let event = TopUpEvent::<T, K, P>::TopUpFailed(message, client_text);
            !(!started_over && (client_text matches Some(t) && (contains_text(
                t@,
                "state transition already in chain"@,
            ) || contains_text(t@, "already completely used"@)))) ==> {
                &&& top_up_failure(run, event) == Some("SDK error: "@ + message@)
                &&& top_up_after(run, event) == run
            }
        }),
{
}

/// A DPNS registration is signed only by an authentication key of critical
/// level and ECDSA secp256k1 or BLS12-381 type: the first such key in the given
/// order; where the identity has none, no key is chosen.
pub proof fn law_dpns_signing_key_is_critical(keys: Seq<(u32, KeyPurpose, KeySecurityLevel, KeyType)>)
    ensures
        document_signing_key(keys) matches Some(id) ==> exists|i: int|
            0 <= i < keys.len() && keys[i].0 == id && keys[i].1 is Authentication && keys[i].2
                is Critical && (keys[i].3 is EcdsaSecp256k1 || keys[i].3 is Bls12381) && forall|
                j: int,
            |
                0 <= j < i ==> !(keys[j].1 is Authentication && keys[j].2 is Critical && (
                keys[j].3 is EcdsaSecp256k1 || keys[j].3 is Bls12381)),
        document_signing_key(keys) is None <==> forall|i: int|
            0 <= i < keys.len() ==> !(keys[i].1 is Authentication && keys[i].2 is Critical && (
            keys[i].3 is EcdsaSecp256k1 || keys[i].3 is Bls12381)),
{
    lemma_document_signing_key_at(keys, KeySecurityLevel::Critical);
}

} // verus!
