//! Planning the transactions that split a wallet's value into many equal outputs.
use vstd::prelude::*;

use crate::amounts::{
    is_covering_prefix, lemma_sum_remove, lemma_sum_take_mono, lemma_sum_take_succ, sum_u64,
};
use crate::text::{contains_text, str_contains};
use crate::wallet::{Utxo, UtxoView, WalletError};

verus! {

/// Dash Core accepts at most this many outputs in one transaction.
pub const MAX_OUTPUTS_PER_TRANSACTION: usize = 24;

/// The part of the balance that splitting leaves aside, in duffs.
pub const SPLIT_BALANCE_RESERVE: u64 = 1_000_000_000;

/// The excess above which a split transaction pays its change back.
pub const SPLIT_CHANGE_THRESHOLD: u64 = 20_000;

/// The fee that a split transaction leaves out of its change.
pub const SPLIT_TRANSACTION_FEE: u64 = 10_000;

/// The values at the given indices, in the order of the indices.
pub open spec fn values_at(values: Seq<u64>, idx: Seq<usize>) -> Seq<u64> {
    idx.map_values(|k: usize| values[k as int])
}

/// No value is larger than one before it.
pub open spec fn nonincreasing(s: Seq<u64>) -> bool {
    forall|a: int, b: int| 0 <= a < b < s.len() ==> s[a] >= s[b]
}

/// No index occurs twice.
pub open spec fn distinct_indices(idx: Seq<usize>) -> bool {
    forall|a: int, b: int| 0 <= a < b < idx.len() ==> idx[a] != idx[b]
}

/// `idx` lists each index below `n` exactly once.
pub open spec fn is_index_order(idx: Seq<usize>, n: nat) -> bool {
    &&& idx.len() == n
    &&& distinct_indices(idx)
    &&& forall|k: int| 0 <= k < idx.len() ==> idx[k] < n
    &&& forall|j: usize| j < n ==> idx.contains(j)
}

/// The outputs of a split transaction: `n - 1` outputs of the split value, then,
/// where the inputs exceed them by more than the threshold, the excess less the
/// fee as change.
pub open spec fn split_outputs(split_value: u64, n: nat, inputs_total: nat) -> Seq<u64> {
    let paid = split_value * (n - 1);
    Seq::new((n - 1) as nat, |i: int| split_value) + if inputs_total - paid
        > SPLIT_CHANGE_THRESHOLD {
        seq![(inputs_total - paid - SPLIT_TRANSACTION_FEE) as u64]
    } else {
        Seq::empty()
    }
}

/// How many split transactions to make and the value of each new output:
/// `ceil(desired / 24)` transactions and `(balance - 1_000_000_000) / desired` duffs.
pub fn split_parameters(current_wallet_balance: u64, desired_utxo_count: usize) -> (r: (
    usize,
    u64,
))
    requires
        desired_utxo_count > 0,
        current_wallet_balance >= SPLIT_BALANCE_RESERVE,
    ensures
        r.0 == (desired_utxo_count + MAX_OUTPUTS_PER_TRANSACTION - 1) as int
            / MAX_OUTPUTS_PER_TRANSACTION as int,
        r.1 == (current_wallet_balance - SPLIT_BALANCE_RESERVE) as int / desired_utxo_count as int,
{
    let full = desired_utxo_count / MAX_OUTPUTS_PER_TRANSACTION;
    let number_of_transactions = if desired_utxo_count % MAX_OUTPUTS_PER_TRANSACTION == 0 {
        full
    } else {
        full + 1
    };
    let split_value = (current_wallet_balance - SPLIT_BALANCE_RESERVE) / (
    desired_utxo_count as u64);
    (number_of_transactions, split_value)
}

/// The indices of `values` ordered from the largest value to the smallest; equal
/// values keep their order.
pub fn order_by_value_desc(values: &Vec<u64>) -> (order: Vec<usize>)
    ensures
        is_index_order(order@, values@.len()),
        nonincreasing(values_at(values@, order@)),
        sum_u64(values_at(values@, order@)) == sum_u64(values@),
{
    let mut order: Vec<usize> = Vec::new();
    let mut i: usize = 0;
    while i < values.len()
        invariant
            i <= values.len(),
            order@.len() == i,
            distinct_indices(order@),
            forall|k: int| 0 <= k < order@.len() ==> order@[k] < i,
            forall|j: usize| j < i ==> order@.contains(j),
            nonincreasing(values_at(values@, order@)),
            sum_u64(values_at(values@, order@)) == sum_u64(values@.take(i as int)),
        decreases values.len() - i,
    {
        let v = values[i];
        let mut p: usize = 0;
        while p < order.len() && values[order[p]] >= v
            invariant
                p <= order@.len(),
                forall|k: int| 0 <= k < order@.len() ==> order@[k] < i,
                i < values@.len(),
                v == values@[i as int],
                forall|a: int| 0 <= a < p ==> values@[order@[a] as int] >= v,
            decreases order@.len() - p,
        {
            p = p + 1;
        }
        let ghost old_order = order@;
        order.insert(p, i);
        proof {
            let sv_old = values_at(values@, old_order);
            let sv = values_at(values@, order@);
            assert(order@ == old_order.insert(p as int, i));
            assert(sv.remove(p as int) =~= sv_old);
            lemma_sum_remove(sv, p as int);
            lemma_sum_take_succ(values@, i as int);
            assert forall|j: usize| j < i + 1 implies order@.contains(j) by {
                if j == i {
                    assert(order@[p as int] == i);
                } else {
                    assert(old_order.contains(j));
                    let q = choose|q: int| 0 <= q < old_order.len() && old_order[q] == j;
                    if q < p {
                        assert(order@[q] == j);
                    } else {
                        assert(order@[q + 1] == j);
                    }
                }
            }
            assert forall|a: int, b: int| 0 <= a < b < sv.len() implies sv[a] >= sv[b] by {
                if b < p {
                    assert(sv[a] == sv_old[a] && sv[b] == sv_old[b]);
                } else if b == p {
                    assert(sv[a] == sv_old[a]);
                } else if a == p {
                    assert(sv[b] == sv_old[b - 1]);
                    if p < sv_old.len() {
                        assert(sv_old[p as int] < v);
                        assert(sv_old[p as int] >= sv_old[b - 1]);
                    }
                } else if a < p {
                    assert(sv[a] == sv_old[a] && sv[b] == sv_old[b - 1]);
                } else {
                    assert(sv[a] == sv_old[a - 1] && sv[b] == sv_old[b - 1]);
                }
            }
        }
        i = i + 1;
    }
    proof {
        assert(values@.take(i as int) =~= values@);
    }
    order
}

/// The inputs and outputs of one split transaction.
pub struct SplitTransactionPlan {
    /// Indices, into the wallet's remaining outputs, of the outputs to spend.
    pub input_indices: Vec<usize>,
    /// The values of the new outputs, all paid to the wallet's own address.
    pub output_values: Vec<u64>,
}

/// Plans one split transaction that creates `outputs_to_create` outputs of
/// `utxo_split_value`: spends the largest remaining outputs until they cover
/// them, pays `outputs_to_create - 1` outputs of the split value and, where the
/// excess over those is above the threshold, that excess less the fee. Fails
/// with [`WalletError::Balance`] where all remaining outputs do not cover them.
pub fn plan_split_transaction(
    utxo_values: &Vec<u64>,
    utxo_split_value: u64,
    outputs_to_create: usize,
) -> (r: Result<SplitTransactionPlan, WalletError>)
    requires
        1 <= outputs_to_create <= MAX_OUTPUTS_PER_TRANSACTION,
        utxo_split_value * outputs_to_create <= u64::MAX,
        sum_u64(utxo_values@) <= u64::MAX,
    ensures
        r is Err <==> sum_u64(utxo_values@) < utxo_split_value * outputs_to_create,
        r is Err ==> r matches Err(WalletError::Balance),
        r matches Ok(plan) ==> {
            let ins = plan.input_indices@;
            let target = utxo_split_value * outputs_to_create;
            let total = sum_u64(values_at(utxo_values@, ins));
            &&& distinct_indices(ins)
            &&& forall|k: int| 0 <= k < ins.len() ==> ins[k] < utxo_values@.len()
            &&& nonincreasing(values_at(utxo_values@, ins))
            &&& is_covering_prefix(values_at(utxo_values@, ins), target as nat, ins.len())
            &&& ins.len() > 0 ==> forall|j: usize|
                j < utxo_values@.len() && !ins.contains(j) ==> utxo_values@[j as int]
                    <= utxo_values@[ins.last() as int]
            &&& plan.output_values@ == split_outputs(
                utxo_split_value,
                outputs_to_create as nat,
                total,
            )
        },
{
    let order = order_by_value_desc(utxo_values);
    let ghost sv = values_at(utxo_values@, order@);
    let target = utxo_split_value * (outputs_to_create as u64);
    let mut total: u64 = 0;
    let mut m: usize = 0;
    while m < order.len() && total < target
        invariant
            sv == values_at(utxo_values@, order@),
            is_index_order(order@, utxo_values@.len()),
            sum_u64(sv) == sum_u64(utxo_values@),
            sum_u64(utxo_values@) <= u64::MAX,
            m <= order@.len(),
            total == sum_u64(sv.take(m as int)),
            m > 0 ==> sum_u64(sv.take(m - 1)) < target,
        decreases order@.len() - m,
    {
        proof {
            lemma_sum_take_succ(sv, m as int);
            lemma_sum_take_mono(sv, m + 1, sv.len() as int);
        }
        total = total + utxo_values[order[m]];
        m = m + 1;
    }
    proof {
        lemma_sum_take_mono(sv, m as int, sv.len() as int);
        if m == sv.len() {
            assert(sv.take(m as int) =~= sv);
        }
    }
    if total < target {
        return Err(WalletError::Balance);
    }
    let mut inputs = order;
    inputs.truncate(m);
    assert(utxo_split_value * (outputs_to_create - 1) <= utxo_split_value * outputs_to_create)
        by (nonlinear_arith)
        requires
            outputs_to_create >= 1,
    ;
    let paid = utxo_split_value * ((outputs_to_create - 1) as u64);
    let mut outputs: Vec<u64> = Vec::new();
    let mut i: usize = 0;
    while i < outputs_to_create - 1
        invariant
            i <= outputs_to_create - 1,
            outputs@ =~= Seq::new(i as nat, |k: int| utxo_split_value),
        decreases outputs_to_create - 1 - i,
    {
        outputs.push(utxo_split_value);
        i = i + 1;
    }
    proof {
        assert(values_at(utxo_values@, inputs@) =~= sv.take(m as int));
        assert(inputs@ =~= order@.take(m as int));
    }
    if total - paid > SPLIT_CHANGE_THRESHOLD {
        outputs.push(total - paid - SPLIT_TRANSACTION_FEE);
    }
    proof {
        let ins = inputs@;
        let iv = values_at(utxo_values@, ins);
        assert(distinct_indices(ins));
        assert(forall|k: int| 0 <= k < ins.len() ==> ins[k] < utxo_values@.len());
        assert(nonincreasing(iv)) by {
            assert forall|a: int, b: int| 0 <= a < b < iv.len() implies iv[a] >= iv[b] by {
                assert(iv[a] == sv[a] && iv[b] == sv[b]);
            }
        }
        assert(is_covering_prefix(iv, target as nat, ins.len())) by {
            assert(iv.take(ins.len() as int) =~= iv);
            if m > 0 {
                assert(iv.take(m - 1) =~= sv.take(m - 1));
            }
        }
        assert forall|j: usize|
            ins.len() > 0 && j < utxo_values@.len() && !ins.contains(j) implies utxo_values@[j as int]
            <= utxo_values@[ins.last() as int] by {
            assert(order@.contains(j));
            let q = choose|q: int| 0 <= q < order@.len() && order@[q] == j;
            if q < m {
                assert(ins[q] == j);
            }
            assert(sv[q] == utxo_values@[j as int]);
            assert(sv[m - 1] == utxo_values@[ins.last() as int]);
        }
    }
    Ok(SplitTransactionPlan { input_indices: inputs, output_values: outputs })
}

/// How many outputs the next split transaction makes: as many as remain to be
/// made, and at most as many as a transaction may have.
pub fn outputs_this_transaction(remaining: usize) -> (r: usize)
    ensures
        r == (if remaining < MAX_OUTPUTS_PER_TRANSACTION {
            remaining
        } else {
            MAX_OUTPUTS_PER_TRANSACTION
        }),
{
    if remaining < MAX_OUTPUTS_PER_TRANSACTION {
        remaining
    } else {
        MAX_OUTPUTS_PER_TRANSACTION
    }
}

/// How many outputs remain to be made after a split transaction that made
/// `outputs_made` of them (the outputs of the split value and the change).
pub fn remaining_after_transaction(remaining: usize, outputs_made: usize) -> (r: usize)
    requires
        outputs_made <= remaining,
    ensures
        r == remaining - outputs_made,
{
    remaining - outputs_made
}

/// How often a broadcast split transaction is looked for before the split
/// gives up.
pub const SPLIT_LOOKUP_ATTEMPTS: u32 = 3;

/// What follows a lookup of a broadcast split transaction.
#[derive(PartialEq, Eq, Structural)]
pub enum LookupStep {
    /// The transaction was found; the split goes on.
    Found,
    /// It was not found yet; look again after a wait.
    LookAgain,
    /// The split fails.
    GiveUp,
}

/// The step after the lookup that follows `retries` lookups which did not find
/// the transaction: a transaction that is not found yet is looked for again
/// until the attempts are used up; any other failure ends the split.
pub fn lookup_step(retries: u32, lookup: &Result<(), String>) -> (r: LookupStep)
    requires
        retries < SPLIT_LOOKUP_ATTEMPTS,
    ensures
        lookup is Ok ==> r == LookupStep::Found,
        lookup matches Err(m) ==> r == (if contains_text(m@, "Transaction not found"@) && retries
            + 1 < SPLIT_LOOKUP_ATTEMPTS {
            LookupStep::LookAgain
        } else {
            LookupStep::GiveUp
        }),
{
    match lookup {
        Ok(()) => LookupStep::Found,
        Err(m) => {
            if str_contains(m.as_str(), "Transaction not found") && retries + 1
                < SPLIT_LOOKUP_ATTEMPTS {
                LookupStep::LookAgain
            } else {
                LookupStep::GiveUp
            }
        },
    }
}

/// The outputs among the first `n` that a transaction with the given inputs
/// does not spend, in order.
pub open spec fn unspent_prefix(utxos: Seq<Utxo>, inputs: Seq<usize>, n: int) -> Seq<UtxoView>
    decreases n,
{
    if n <= 0 {
        Seq::empty()
    } else {
        unspent_prefix(utxos, inputs, n - 1) + if inputs.contains((n - 1) as usize) {
            Seq::empty()
        } else {
            seq![utxos[n - 1]@]
        }
    }
}

/// The outputs that a transaction with id `txid` pays, at their indices.
pub open spec fn paid_outputs(txid: Seq<u8>, script: Seq<u8>, values: Seq<u64>) -> Seq<UtxoView> {
    Seq::new(
        values.len(),
        |k: int| UtxoView { txid, vout: k as u32, value: values[k], script_pubkey: script },
    )
}

fn index_listed(inputs: &Vec<usize>, i: usize) -> (r: bool)
    ensures
        r == inputs@.contains(i),
{
    let mut k: usize = 0;
    while k < inputs.len()
        invariant
            k <= inputs@.len(),
            forall|q: int| 0 <= q < k ==> inputs@[q] != i,
        decreases inputs@.len() - k,
    {
        if inputs[k] == i {
            return true;
        }
        k = k + 1;
    }
    false
}

/// The wallet's outputs after a split transaction with id `txid`: those it did
/// not spend, in order, then the outputs it pays to the wallet's script, at
/// their indices.
pub fn apply_split_transaction(
    utxos: Vec<Utxo>,
    inputs: &Vec<usize>,
    values: &Vec<u64>,
    txid: &Vec<u8>,
    script: &Vec<u8>,
) -> (r: Vec<Utxo>)
    requires
        values@.len() <= u32::MAX,
    ensures
        r@.map_values(|u: Utxo| u@) == unspent_prefix(utxos@, inputs@, utxos@.len() as int)
            + paid_outputs(txid@, script@, values@),
{
    let ghost all = utxos@;
    let n = utxos.len();
    let mut rest = utxos;
    let mut kept: Vec<Utxo> = Vec::new();
    let mut i: usize = 0;
    while rest.len() > 0
        invariant
            i + rest@.len() == all.len(),
            all.len() == n,
            rest@ == all.skip(i as int),
            kept@.map_values(|u: Utxo| u@) == unspent_prefix(all, inputs@, i as int),
        decreases rest@.len(),
    {
        let u = rest.remove(0);
        proof {
            assert(u == all[i as int]);
            assert(rest@ =~= all.skip(i + 1));
        }
        let ghost before = kept@.map_values(|u: Utxo| u@);
        if !index_listed(inputs, i) {
            let ghost uv = u@;
            kept.push(u);
            proof {
                assert(kept@.map_values(|u: Utxo| u@) =~= before.push(uv));
            }
        }
        proof {
            assert(unspent_prefix(all, inputs@, i + 1) == unspent_prefix(all, inputs@, i as int)
                + if inputs@.contains(i) {
                Seq::<UtxoView>::empty()
            } else {
                seq![all[i as int]@]
            });
            if inputs@.contains(i) {
                assert(kept@.map_values(|u: Utxo| u@) =~= unspent_prefix(all, inputs@, i + 1));
            } else {
                assert(kept@.map_values(|u: Utxo| u@) =~= unspent_prefix(all, inputs@, i + 1));
            }
        }
        i = i + 1;
    }
    let ghost prefix = kept@.map_values(|u: Utxo| u@);
    let mut k: usize = 0;
    while k < values.len()
        invariant
            k <= values@.len(),
            values@.len() <= u32::MAX,
            kept@.map_values(|u: Utxo| u@) == prefix + paid_outputs(
                txid@,
                script@,
                values@.take(k as int),
            ),
        decreases values@.len() - k,
    {
        let ghost before = kept@.map_values(|u: Utxo| u@);
        let out = Utxo {
            txid: txid.clone(),
            vout: k as u32,
            value: values[k],
            script_pubkey: script.clone(),
        };
        let ghost ov = out@;
        kept.push(out);
        proof {
            assert(kept@.map_values(|u: Utxo| u@) =~= before.push(ov));
            assert(paid_outputs(txid@, script@, values@.take(k + 1)) =~= paid_outputs(
                txid@,
                script@,
                values@.take(k as int),
            ).push(ov));
        }
        k = k + 1;
    }
    proof {
        assert(values@.take(k as int) =~= values@);
    }
    kept
}

} // verus!
