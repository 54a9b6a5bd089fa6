//! The single-key wallet: its unspent outputs, coin selection and the plans of the
//! transactions that spend them.
use vstd::prelude::*;

use crate::codec::{hex_encode, hex_lower};
use crate::text::{decimal, push_decimal, push_str, push_string, string_from_chars};
use crate::amounts::{
    is_covering_prefix, lemma_sum_concat, lemma_sum_take_mono, lemma_sum_take_succ, sum_u64,
};

verus! {

/// An unspent transaction output held by the wallet.
pub struct Utxo {
    /// Transaction id, in the byte order in which it is serialized.
    pub txid: Vec<u8>,
    /// Index of the output in its transaction.
    pub vout: u32,
    /// Value in duffs.
    pub value: u64,
    /// The output's locking script.
    pub script_pubkey: Vec<u8>,
}

/// What a [`Utxo`] holds, as plain values.
pub struct UtxoView {
    pub txid: Seq<u8>,
    pub vout: u32,
    pub value: u64,
    pub script_pubkey: Seq<u8>,
}

impl View for Utxo {
    type V = UtxoView;

    open spec fn view(&self) -> UtxoView {
        UtxoView {
            txid: self.txid@,
            vout: self.vout,
            value: self.value,
            script_pubkey: self.script_pubkey@,
        }
    }
}

/// The values of a sequence of outputs.
pub open spec fn utxo_values(s: Seq<Utxo>) -> Seq<u64> {
    s.map_values(|u: Utxo| u.value)
}

/// Two outputs with the same outpoint: transaction id and index.
pub open spec fn same_outpoint(a: Utxo, b: Utxo) -> bool {
    a.txid@ == b.txid@ && a.vout == b.vout
}

/// Some output of `s` has the outpoint of `u`.
pub open spec fn has_outpoint(s: Seq<Utxo>, u: Utxo) -> bool {
    exists|i: int| 0 <= i < s.len() && same_outpoint(#[trigger] s[i], u)
}

/// No two outputs of `s` have the same outpoint.
pub open spec fn distinct_outpoints(s: Seq<Utxo>) -> bool {
    forall|a: int, b: int| 0 <= a < b < s.len() ==> !same_outpoint(#[trigger] s[a], #[trigger] s[b])
}

/// The outputs of `s`, in order, each outpoint once with the last output given
/// for it, as a map from outpoints keeps them.
pub open spec fn last_of_each(s: Seq<Utxo>) -> Seq<Utxo>
    decreases s.len(),
{
    if s.len() == 0 {
        Seq::empty()
    } else if has_outpoint(s.drop_first(), s[0]) {
        last_of_each(s.drop_first())
    } else {
        seq![s[0]] + last_of_each(s.drop_first())
    }
}

/// Keeping the last output of each outpoint keeps every outpoint, makes them
/// distinct, and keeps no more value.
pub proof fn lemma_last_of_each(s: Seq<Utxo>)
    ensures
        forall|u: Utxo| has_outpoint(last_of_each(s), u) == has_outpoint(s, u),
        distinct_outpoints(last_of_each(s)),
        sum_u64(utxo_values(last_of_each(s))) <= sum_u64(utxo_values(s)),
    decreases s.len(),
{
    if s.len() > 0 {
        let t = s.drop_first();
        lemma_last_of_each(t);
        let lt = last_of_each(t);
        assert(s =~= seq![s[0]] + t);
        assert(utxo_values(s) =~= seq![s[0].value] + utxo_values(t));
        lemma_sum_concat(seq![s[0].value], utxo_values(t));
        assert(sum_u64(seq![s[0].value]) == s[0].value) by {
            assert(seq![s[0].value].drop_last() =~= Seq::<u64>::empty());
            reveal_with_fuel(sum_u64, 2);
        }
        assert forall|u: Utxo| has_outpoint(s, u) == (same_outpoint(s[0], u) || has_outpoint(t, u)) by {
            if has_outpoint(s, u) {
                let i = choose|i: int| 0 <= i < s.len() && same_outpoint(#[trigger] s[i], u);
                if i > 0 {
                    assert(same_outpoint(t[i - 1], u));
                }
            }
            if has_outpoint(t, u) {
                let i = choose|i: int| 0 <= i < t.len() && same_outpoint(#[trigger] t[i], u);
                assert(same_outpoint(s[i + 1], u));
            }
        }
        if !has_outpoint(t, s[0]) {
            let r = seq![s[0]] + lt;
            assert(utxo_values(r) =~= seq![s[0].value] + utxo_values(lt));
            lemma_sum_concat(seq![s[0].value], utxo_values(lt));
            assert forall|u: Utxo| has_outpoint(r, u) == (same_outpoint(s[0], u) || has_outpoint(lt, u)) by {
                if has_outpoint(r, u) {
                    let i = choose|i: int| 0 <= i < r.len() && same_outpoint(#[trigger] r[i], u);
                    if i > 0 {
                        assert(same_outpoint(lt[i - 1], u));
                    }
                }
                if has_outpoint(lt, u) {
                    let i = choose|i: int| 0 <= i < lt.len() && same_outpoint(#[trigger] lt[i], u);
                    assert(same_outpoint(r[i + 1], u));
                }
                assert(same_outpoint(s[0], u) ==> same_outpoint(r[0], u));
            }
            assert forall|a: int, b: int| 0 <= a < b < r.len() implies !same_outpoint(
                #[trigger] r[a],
                #[trigger] r[b],
            ) by {
                if a == 0 {
                    if same_outpoint(r[a], r[b]) {
                        assert(same_outpoint(lt[b - 1], s[0]));
                        assert(has_outpoint(lt, s[0]));
                    }
                } else {
                    assert(r[a] == lt[a - 1] && r[b] == lt[b - 1]);
                }
            }
        } else {
            assert forall|u: Utxo| has_outpoint(lt, u) == has_outpoint(s, u) by {
                if same_outpoint(s[0], u) {
                    let i = choose|i: int| 0 <= i < t.len() && same_outpoint(#[trigger] t[i], s[0]);
                    assert(same_outpoint(t[i], u));
                }
            }
        }
    } else {
        assert(utxo_values(last_of_each(s)) =~= Seq::<u64>::empty());
    }
}

/// Whether some output of `s` has the outpoint of `u`.
fn has_outpoint_exec(s: &Vec<Utxo>, u: &Utxo) -> (r: bool)
    ensures
        r == has_outpoint(s@, *u),
{
    let mut i: usize = 0;
    while i < s.len()
        invariant
            i <= s@.len(),
            forall|j: int| 0 <= j < i ==> !same_outpoint(#[trigger] s@[j], *u),
        decreases s@.len() - i,
    {
        if crate::codec::bytes_equal(&s[i].txid, &u.txid) && s[i].vout == u.vout {
            assert(same_outpoint(s@[i as int], *u));
            return true;
        }
        i = i + 1;
    }
    false
}

/// The outputs read for the wallet, each outpoint once: the last output read
/// for it.
pub fn last_output_of_each(v: Vec<Utxo>) -> (r: Vec<Utxo>)
    ensures
        r@ == last_of_each(v@),
{
    let ghost all = v@;
    let mut rest = v;
    let mut out: Vec<Utxo> = Vec::new();
    assert(all.skip(all.len() as int) =~= Seq::<Utxo>::empty());
    while rest.len() > 0
        invariant
            rest@.len() <= all.len(),
            rest@ == all.take(rest@.len() as int),
            out@ == last_of_each(all.skip(rest@.len() as int)),
        decreases rest@.len(),
    {
        let ghost n = rest@.len() - 1;
        let u = rest.pop().unwrap();
        proof {
            assert(rest@ =~= all.take(n));
            assert(u == all[n]);
            assert(all.skip(n).drop_first() =~= all.skip(n + 1));
            assert(all.skip(n)[0] == u);
            lemma_last_of_each(all.skip(n + 1));
        }
        if !has_outpoint_exec(&out, &u) {
            out.insert(0, u);
            proof {
                assert(out@ =~= seq![u] + last_of_each(all.skip(n + 1)));
            }
        }
    }
    out
}

/// Errors of wallet operations.
#[derive(Debug)]
pub enum WalletError {
    /// The block explorer could not be asked or answered badly.
    Insight(String),
    /// The wallet does not hold enough value.
    Balance,
    /// Any other failure, with its message.
    Custom(String),
}

impl WalletError {
    /// The message that the error is shown with.
    pub open spec fn spec_message(&self) -> Seq<char> {
        match self {
            WalletError::Insight(m) => "insight error: "@ + m@,
            WalletError::Balance => "not enough balance"@,
            WalletError::Custom(m) => m@,
        }
    }

    /// The message that the error is shown with.
    pub fn message(&self) -> (r: String)
        ensures
            r@ == self.spec_message(),
    {
        let mut out: Vec<char> = Vec::new();
        match self {
            WalletError::Insight(m) => {
                push_str(&mut out, "insight error: ");
                push_string(&mut out, m);
            },
            WalletError::Balance => push_str(&mut out, "not enough balance"),
            WalletError::Custom(m) => push_string(&mut out, m),
        }
        string_from_chars(&out)
    }
}

/// The fee that an asset lock transaction reserves, in duffs.
pub const ASSET_LOCK_FEE: u64 = 30_000;

/// The locking script of an output that a wallet transaction pays.
pub enum OutputScript {
    /// A provably unspendable output with no data (`OP_RETURN`).
    OpReturn,
    /// Pay to the hash of the one-time key's public key.
    OneTimeKey,
    /// Pay to this address.
    Address(String),
}

/// An output that a wallet transaction pays.
pub struct PlannedOutput {
    pub value: u64,
    pub script: OutputScript,
}

/// The version of the transactions that the wallet makes.
pub const WALLET_TRANSACTION_VERSION: u16 = 3;

/// What an asset lock transaction spends and pays, before it is signed.
pub struct AssetLockPlan {
    /// The outputs that the transaction spends, taken from the wallet.
    pub inputs: Vec<Utxo>,
    /// The transaction's version.
    pub version: u16,
    /// The transaction's lock time.
    pub lock_time: u32,
    /// The version of the asset lock payload.
    pub payload_version: u8,
    /// The transaction's outputs, in order.
    pub outputs: Vec<PlannedOutput>,
    /// The credit outputs of the asset lock payload.
    pub credit_outputs: Vec<PlannedOutput>,
}

/// What the older registration transaction spends and pays, before it is signed.
pub struct RegistrationPlan {
    /// The outputs that the transaction spends, taken from the wallet.
    pub inputs: Vec<Utxo>,
    /// The transaction's version.
    pub version: u16,
    /// The transaction's lock time.
    pub lock_time: u32,
    /// The version of the asset lock payload.
    pub payload_version: u8,
    /// The transaction's outputs, in order.
    pub outputs: Vec<PlannedOutput>,
    /// The credit outputs of the asset lock payload.
    pub credit_outputs: Vec<PlannedOutput>,
}

/// An output of `value` with a script of the given kind.
pub open spec fn pays(o: PlannedOutput, value: int, script: OutputScript) -> bool {
    o.value == value && match (o.script, script) {
        (OutputScript::OpReturn, OutputScript::OpReturn) => true,
        (OutputScript::OneTimeKey, OutputScript::OneTimeKey) => true,
        (OutputScript::Address(a), OutputScript::Address(b)) => a@ == b@,
        _ => false,
    }
}

/// An asset lock plan that spends `inputs`: a version 3 transaction with lock
/// time 0 that burns `amount` and pays `change` to `address`, with a payload of
/// version 1 that credits `amount` to the one-time key.
pub open spec fn is_asset_lock_plan(
    plan: AssetLockPlan,
    inputs: Seq<Utxo>,
    amount: u64,
    change: int,
    address: String,
) -> bool {
    &&& plan.inputs@ == inputs
    &&& plan.version == 3
    &&& plan.lock_time == 0
    &&& plan.payload_version == 1
    &&& plan.outputs@.len() == 2
    &&& pays(plan.outputs@[0], amount as int, OutputScript::OpReturn)
    &&& pays(plan.outputs@[1], change, OutputScript::Address(address))
    &&& plan.credit_outputs@.len() == 1
    &&& pays(plan.credit_outputs@[0], amount as int, OutputScript::OneTimeKey)
}

/// A registration plan that spends `inputs`: a version 3 transaction with lock
/// time 0 that pays `amount` to the one-time key and `change` to `address`,
/// with a payload of version 0 that credits one Dash to a burn output.
pub open spec fn is_registration_plan(
    plan: RegistrationPlan,
    inputs: Seq<Utxo>,
    amount: u64,
    change: int,
    address: String,
) -> bool {
    &&& plan.inputs@ == inputs
    &&& plan.version == 3
    &&& plan.lock_time == 0
    &&& plan.payload_version == 0
    &&& plan.outputs@.len() == 2
    &&& pays(plan.outputs@[0], amount as int, OutputScript::OneTimeKey)
    &&& pays(plan.outputs@[1], change, OutputScript::Address(address))
    &&& plan.credit_outputs@.len() == 1
    &&& pays(plan.credit_outputs@[0], REGISTRATION_CREDIT as int, OutputScript::OpReturn)
}

/// The value that the older registration transaction credits: one Dash.
pub const REGISTRATION_CREDIT: u64 = 100_000_000;

/// A wallet of one key pair and the outputs paid to its address.
pub struct SingleKeyWallet {
    /// The 32 secret bytes of the private key.
    pub private_key: Vec<u8>,
    /// The serialized public key.
    pub public_key: Vec<u8>,
    /// The pay-to-public-key-hash address of the key, as text.
    pub address: String,
    /// The unspent outputs, in the order in which coin selection walks them.
    pub utxos: Vec<Utxo>,
}

impl SingleKeyWallet {
    /// The values of the wallet's outputs, in order.
    pub open spec fn values(&self) -> Seq<u64> {
        utxo_values(self.utxos@)
    }

    /// The wallet's outputs hold no more than an `i64` can count, and no
    /// outpoint is held twice.
    pub open spec fn wf(&self) -> bool {
        &&& sum_u64(self.values()) <= i64::MAX
        &&& distinct_outpoints(self.utxos@)
    }

    /// The wallet's balance: the sum of the values of its outputs.
    pub fn balance(&self) -> (r: u64)
        requires
            self.wf(),
        ensures
            r == sum_u64(self.values()),
    {
        let ghost vals = self.values();
        let mut total: u64 = 0;
        let mut i: usize = 0;
        while i < self.utxos.len()
            invariant
                vals == self.values(),
                sum_u64(vals) <= i64::MAX,
                i <= self.utxos.len(),
                vals.len() == self.utxos.len(),
                total == sum_u64(vals.take(i as int)),
            decreases self.utxos.len() - i,
        {
            proof {
                lemma_sum_take_succ(vals, i as int);
                lemma_sum_take_mono(vals, i + 1, vals.len() as int);
            }
            total = total + self.utxos[i].value;
            i = i + 1;
        }
        proof {
            assert(vals.take(i as int) =~= vals);
        }
        total
    }

    /// Takes outputs from the front of the wallet until their values cover
    /// `amount`, removes them from the wallet and returns them with the change
    /// (their total less `amount`). Where the whole wallet does not cover
    /// `amount`, returns `None` and leaves the wallet as it was.
    pub fn take_unspent_utxos_for(&mut self, amount: u64) -> (r: Option<(Vec<Utxo>, u64)>)
        requires
            old(self).wf(),
            amount <= i64::MAX,
        ensures
            final(self).wf(),
            final(self).private_key == old(self).private_key,
            final(self).public_key == old(self).public_key,
            final(self).address == old(self).address,
            r is None <==> sum_u64(old(self).values()) < amount,
            r is None ==> final(self).utxos@ == old(self).utxos@,
            r matches Some((taken, change)) ==> {
                &&& is_covering_prefix(old(self).values(), amount as nat, taken@.len())
                &&& taken@ == old(self).utxos@.take(taken@.len() as int)
                &&& final(self).utxos@ == old(self).utxos@.skip(taken@.len() as int)
                &&& change == sum_u64(utxo_values(taken@)) - amount
                &&& sum_u64(old(self).values()) == sum_u64(utxo_values(taken@)) + sum_u64(
                    final(self).values(),
                )
            },
    {
        let ghost vals = self.values();
        let mut acc: u64 = 0;
        let mut i: usize = 0;
        while i < self.utxos.len() && acc < amount
            invariant
                vals == self.values(),
                sum_u64(vals) <= i64::MAX,
                i <= self.utxos.len(),
                vals.len() == self.utxos.len(),
                acc == sum_u64(vals.take(i as int)),
                i > 0 ==> sum_u64(vals.take(i - 1)) < amount,
            decreases self.utxos.len() - i,
        {
            proof {
                lemma_sum_take_succ(vals, i as int);
                lemma_sum_take_mono(vals, i + 1, vals.len() as int);
            }
            acc = acc + self.utxos[i].value;
            i = i + 1;
        }
        proof {
            lemma_sum_take_mono(vals, i as int, vals.len() as int);
            if i == vals.len() {
                assert(vals.take(i as int) =~= vals);
            }
        }
        if acc < amount {
            return None;
        }
        let mut taken = self.utxos.split_off(i);
        std::mem::swap(&mut taken, &mut self.utxos);
        proof {
            assert(utxo_values(taken@) =~= vals.take(i as int));
            assert(self.values() =~= vals.skip(i as int));
            assert(vals =~= vals.take(i as int) + vals.skip(i as int));
            lemma_sum_concat(vals.take(i as int), vals.skip(i as int));
        }
        Some((taken, acc - amount))
    }

    /// Takes in the outputs read for the wallet's address: those that the Core
    /// node listed, or, where it failed, those that the block explorer answered
    /// (`fallback`, asked only then), each outpoint once with the last output
    /// read for it; where both failed, the wallet is unchanged and the error
    /// names both failures.
    pub fn reload_utxos(
        &mut self,
        from_core: Result<Vec<Utxo>, String>,
        fallback: Option<Result<Vec<Utxo>, String>>,
    ) -> (r: Result<(), String>)
        requires
            old(self).wf(),
            from_core is Ok <==> fallback is None,
            from_core matches Ok(u) ==> sum_u64(utxo_values(u@)) <= i64::MAX,
            fallback matches Some(Ok(u)) ==> sum_u64(utxo_values(u@)) <= i64::MAX,
        ensures
            final(self).wf(),
            final(self).private_key == old(self).private_key,
            final(self).public_key == old(self).public_key,
            final(self).address == old(self).address,
            from_core matches Ok(u) ==> r is Ok && final(self).utxos@ == last_of_each(u@),
            fallback matches Some(Ok(u)) ==> r is Ok && final(self).utxos@ == last_of_each(u@),
            from_core matches Err(e1) ==> (fallback matches Some(Err(e2)) ==> (r matches Err(m)
                && m@ == "First error from Core: "@ + e1@ + ", Second Error from Insight: "@ + e2@
                && final(self).utxos@ == old(self).utxos@)),
    {
        match from_core {
            Ok(u) => {
                proof {
                    lemma_last_of_each(u@);
                }
                self.utxos = last_output_of_each(u);
                Ok(())
            },
            Err(e1) => match fallback {
                Some(Ok(u)) => {
                    proof {
                        lemma_last_of_each(u@);
                    }
                    self.utxos = last_output_of_each(u);
                    Ok(())
                },
                Some(Err(e2)) => {
                    let mut out: Vec<char> = Vec::new();
                    push_str(&mut out, "First error from Core: ");
                    push_string(&mut out, &e1);
                    push_str(&mut out, ", Second Error from Insight: ");
                    push_string(&mut out, &e2);
                    Err(string_from_chars(&out))
                },
                None => Ok(()),
            },
        }
    }

    /// The address that change is paid to: the wallet's own.
    pub fn change_address(&self) -> (r: String)
        ensures
            r@ == self.address@,
    {
        self.address.clone()
    }

    /// The address that payments are received at: the wallet's own.
    pub fn receive_address(&self) -> (r: String)
        ensures
            r@ == self.address@,
    {
        self.address.clone()
    }

    /// The private key that signs for `address`, which must be the wallet's own
    /// address.
    pub fn private_key_for_address(&self, address: &String) -> (r: &Vec<u8>)
        requires
            address@ == self.address@,
        ensures
            r@ == self.private_key@,
    {
        &self.private_key
    }

    /// Takes from the wallet the outputs that pay for an asset lock of `amount`
    /// and the fee, and returns what the version 3 transaction (lock time 0)
    /// spends and pays: a burn of `amount`, then the change less the fee to the
    /// wallet's address, with a payload (version 1) that credits `amount` to the
    /// one-time key. Fails where the wallet does not cover `amount` and the fee (the wallet
    /// is then unchanged) or where the change is below the fee (the outputs stay
    /// taken).
    pub fn asset_lock_transaction(&mut self, amount: u64) -> (r: Result<AssetLockPlan, WalletError>)
        requires
            old(self).wf(),
            amount + ASSET_LOCK_FEE <= i64::MAX,
        ensures
            final(self).wf(),
            final(self).address == old(self).address,
            final(self).private_key == old(self).private_key,
            final(self).public_key == old(self).public_key,
            sum_u64(old(self).values()) < amount + ASSET_LOCK_FEE ==> {
                &&& final(self).utxos@ == old(self).utxos@
                &&& r matches Err(WalletError::Custom(m))
                &&& m@ == "take_unspent_utxos_for() returned None"@
            },
            sum_u64(old(self).values()) >= amount + ASSET_LOCK_FEE ==> {
                let k = (old(self).utxos@.len() - final(self).utxos@.len()) as nat;
                let change = sum_u64(old(self).values().take(k as int)) - (amount
                    + ASSET_LOCK_FEE);
                &&& is_covering_prefix(old(self).values(), (amount + ASSET_LOCK_FEE) as nat, k)
                &&& final(self).utxos@ == old(self).utxos@.skip(k as int)
                &&& change < ASSET_LOCK_FEE ==> (r matches Err(WalletError::Custom(m)) && m@
                    == "Change < Fee in asset_lock_transaction()"@)
                &&& change >= ASSET_LOCK_FEE ==> (r matches Ok(plan) && is_asset_lock_plan(
                    plan,
                    old(self).utxos@.take(k as int),
                    amount,
                    change - ASSET_LOCK_FEE,
                    old(self).address,
                ))
            },
    {
        let taken = self.take_unspent_utxos_for(amount + ASSET_LOCK_FEE);
        let (inputs, change) = match taken {
            Some(t) => t,
            None => {
                return Err(WalletError::Custom("take_unspent_utxos_for() returned None".to_owned()));
            },
        };
        proof {
            assert(utxo_values(inputs@) =~= old(self).values().take(inputs@.len() as int));
        }
        let change_address = self.change_address();
        if change < ASSET_LOCK_FEE {
            return Err(WalletError::Custom("Change < Fee in asset_lock_transaction()".to_owned()));
        }
        let mut outputs: Vec<PlannedOutput> = Vec::new();
        outputs.push(PlannedOutput { value: amount, script: OutputScript::OpReturn });
        outputs.push(
            PlannedOutput {
                value: change - ASSET_LOCK_FEE,
                script: OutputScript::Address(change_address),
            },
        );
        let mut credit_outputs: Vec<PlannedOutput> = Vec::new();
        credit_outputs.push(PlannedOutput { value: amount, script: OutputScript::OneTimeKey });
        Ok(
            AssetLockPlan {
                inputs,
                version: WALLET_TRANSACTION_VERSION,
                lock_time: 0,
                payload_version: 1,
                outputs,
                credit_outputs,
            },
        )
    }

    /// Takes from the wallet the outputs that cover `amount` and returns what the
    /// older registration transaction (version 3, lock time 0) spends and pays:
    /// `amount` to the one-time key, then the whole change to the wallet's
    /// address, with a payload (version 0) that credits one Dash to a burn. Fails, leaving the wallet
    /// unchanged, where the wallet does not cover `amount`.
    pub fn registration_transaction(&mut self, amount: u64) -> (r: Result<RegistrationPlan, WalletError>)
        requires
            old(self).wf(),
            amount <= i64::MAX,
        ensures
            final(self).wf(),
            final(self).address == old(self).address,
            final(self).private_key == old(self).private_key,
            final(self).public_key == old(self).public_key,
            sum_u64(old(self).values()) < amount ==> {
                &&& final(self).utxos@ == old(self).utxos@
                &&& r matches Err(WalletError::Custom(m))
                &&& m@ == "Not enough balance in wallet"@
            },
            sum_u64(old(self).values()) >= amount ==> {
                let k = (old(self).utxos@.len() - final(self).utxos@.len()) as nat;
                &&& is_covering_prefix(old(self).values(), amount as nat, k)
                &&& final(self).utxos@ == old(self).utxos@.skip(k as int)
                &&& r matches Ok(plan)
                &&& is_registration_plan(
                    plan,
                    old(self).utxos@.take(k as int),
                    amount,
                    sum_u64(old(self).values().take(k as int)) - amount,
                    old(self).address,
                )
            },
    {
        let taken = self.take_unspent_utxos_for(amount);
        let (inputs, change) = match taken {
            Some(t) => t,
            None => {
                return Err(WalletError::Custom("Not enough balance in wallet".to_owned()));
            },
        };
        proof {
            assert(utxo_values(inputs@) =~= old(self).values().take(inputs@.len() as int));
        }
        let change_address = self.change_address();
        let mut outputs: Vec<PlannedOutput> = Vec::new();
        outputs.push(PlannedOutput { value: amount, script: OutputScript::OneTimeKey });
        outputs.push(PlannedOutput { value: change, script: OutputScript::Address(change_address) });
        let mut credit_outputs: Vec<PlannedOutput> = Vec::new();
        credit_outputs.push(
            PlannedOutput { value: REGISTRATION_CREDIT, script: OutputScript::OpReturn },
        );
        Ok(
            RegistrationPlan {
                inputs,
                version: WALLET_TRANSACTION_VERSION,
                lock_time: 0,
                payload_version: 0,
                outputs,
                credit_outputs,
            },
        )
    }
}

/// The text of an outpoint: the transaction id in hex, in the reversed order in
/// which ids are shown, a colon and the output index.
pub open spec fn outpoint_text(txid: Seq<u8>, vout: u32) -> Seq<char> {
    hex_lower(txid.reverse()) + ":"@ + decimal(vout as nat)
}

/// How an output is stored with the wallet: its outpoint as text, its value and
/// its script in hex.
pub open spec fn stored_utxo(u: Utxo) -> (Seq<char>, u64, Seq<char>) {
    (outpoint_text(u.txid@, u.vout), u.value, hex_lower(u.script_pubkey@))
}

fn reversed_bytes(v: &Vec<u8>) -> (r: Vec<u8>)
    ensures
        r@ == v@.reverse(),
{
    let mut r: Vec<u8> = Vec::new();
    let mut i: usize = v.len();
    while i > 0
        invariant
            i <= v@.len(),
            r@ == v@.subrange(i as int, v@.len() as int).reverse(),
        decreases i,
    {
        i = i - 1;
        r.push(v[i]);
        proof {
            assert(v@.subrange(i as int, v@.len() as int).reverse() =~= v@.subrange(
                i + 1,
                v@.len() as int,
            ).reverse().push(v@[i as int]));
        }
    }
    assert(v@.subrange(0, v@.len() as int) =~= v@);
    r
}

impl SingleKeyWallet {
    /// The outputs as the wallet is stored with them, in order.
    pub fn stored_utxos(&self) -> (r: Vec<(String, u64, String)>)
        ensures
            r@.len() == self.utxos@.len(),
            forall|i: int|
                0 <= i < r@.len() ==> (r@[i].0@, r@[i].1, r@[i].2@) == stored_utxo(
                    #[trigger] self.utxos@[i],
                ),
    {
        let mut r: Vec<(String, u64, String)> = Vec::new();
        let mut i: usize = 0;
        while i < self.utxos.len()
            invariant
                i <= self.utxos@.len(),
                r@.len() == i,
                forall|k: int|
                    0 <= k < i ==> (r@[k].0@, r@[k].1, r@[k].2@) == stored_utxo(
                        #[trigger] self.utxos@[k],
                    ),
            decreases self.utxos@.len() - i,
        {
            let u = &self.utxos[i];
            let mut text: Vec<char> = Vec::new();
            let txid_hex = hex_encode(reversed_bytes(&u.txid).as_slice());
            push_string(&mut text, &txid_hex);
            push_str(&mut text, ":");
            push_decimal(&mut text, u.vout as u64);
            let script_hex = hex_encode(u.script_pubkey.as_slice());
            proof {
                assert(text@ =~= outpoint_text(u.txid@, u.vout));
            }
            r.push((string_from_chars(&text), u.value, script_hex));
            i = i + 1;
        }
        r
    }
}

/// A wallet of the explorer; there is one kind.
pub enum Wallet {
    SingleKeyWallet(SingleKeyWallet),
}

impl Wallet {
    /// The single-key wallet inside.
    pub open spec fn inner(&self) -> SingleKeyWallet {
        match self {
            Wallet::SingleKeyWallet(w) => *w,
        }
    }

    /// The private key that signs for `address`, the wallet's own address.
    pub fn private_key_for_address(&self, address: &String) -> (r: &Vec<u8>)
        requires
            address@ == self.inner().address@,
        ensures
            r@ == self.inner().private_key@,
    {
        match self {
            Wallet::SingleKeyWallet(w) => w.private_key_for_address(address),
        }
    }

    /// The address that payments are received at.
    pub fn receive_address(&self) -> (r: String)
        ensures
            r@ == self.inner().address@,
    {
        match self {
            Wallet::SingleKeyWallet(w) => w.receive_address(),
        }
    }

    /// The address that change is paid to.
    pub fn change_address(&self) -> (r: String)
        ensures
            r@ == self.inner().address@,
    {
        match self {
            Wallet::SingleKeyWallet(w) => w.change_address(),
        }
    }

    /// The wallet's balance, the sum of its outputs' values.
    pub fn balance(&self) -> (r: u64)
        requires
            self.inner().wf(),
        ensures
            r == sum_u64(self.inner().values()),
    {
        match self {
            Wallet::SingleKeyWallet(w) => w.balance(),
        }
    }

    /// Coin selection of the single-key wallet: see
    /// [`SingleKeyWallet::take_unspent_utxos_for`].
    pub fn take_unspent_utxos_for(&mut self, amount: u64) -> (r: Option<(Vec<Utxo>, u64)>)
        requires
            old(self).inner().wf(),
            amount <= i64::MAX,
        ensures
            final(self).inner().wf(),
            final(self).inner().address == old(self).inner().address,
            final(self).inner().private_key == old(self).inner().private_key,
            final(self).inner().public_key == old(self).inner().public_key,
            r is None <==> sum_u64(old(self).inner().values()) < amount,
            r is None ==> final(self).inner().utxos@ == old(self).inner().utxos@,
            r matches Some((taken, change)) ==> {
                &&& is_covering_prefix(old(self).inner().values(), amount as nat, taken@.len())
                &&& taken@ == old(self).inner().utxos@.take(taken@.len() as int)
                &&& final(self).inner().utxos@ == old(self).inner().utxos@.skip(
                    taken@.len() as int,
                )
                &&& change == sum_u64(utxo_values(taken@)) - amount
                &&& sum_u64(old(self).inner().values()) == sum_u64(utxo_values(taken@)) + sum_u64(
                    final(self).inner().values(),
                )
            },
    {
        match self {
            Wallet::SingleKeyWallet(w) => w.take_unspent_utxos_for(amount),
        }
    }

    /// The plan of an asset lock transaction of the single-key wallet: see
    /// [`SingleKeyWallet::asset_lock_transaction`].
    pub fn asset_lock_transaction(&mut self, amount: u64) -> (r: Result<AssetLockPlan, WalletError>)
        requires
            old(self).inner().wf(),
            amount + ASSET_LOCK_FEE <= i64::MAX,
        ensures
            final(self).inner().wf(),
            final(self).inner().address == old(self).inner().address,
            final(self).inner().private_key == old(self).inner().private_key,
            final(self).inner().public_key == old(self).inner().public_key,
            sum_u64(old(self).inner().values()) < amount + ASSET_LOCK_FEE ==> {
                &&& final(self).inner().utxos@ == old(self).inner().utxos@
                &&& r matches Err(WalletError::Custom(m))
                &&& m@ == "take_unspent_utxos_for() returned None"@
            },
            sum_u64(old(self).inner().values()) >= amount + ASSET_LOCK_FEE ==> {
                let k = (old(self).inner().utxos@.len() - final(self).inner().utxos@.len()) as nat;
                let change = sum_u64(old(self).inner().values().take(k as int)) - (amount
                    + ASSET_LOCK_FEE);
                &&& is_covering_prefix(
                    old(self).inner().values(),
                    (amount + ASSET_LOCK_FEE) as nat,
                    k,
                )
                &&& final(self).inner().utxos@ == old(self).inner().utxos@.skip(k as int)
                &&& change < ASSET_LOCK_FEE ==> (r matches Err(WalletError::Custom(m)) && m@
                    == "Change < Fee in asset_lock_transaction()"@)
                &&& change >= ASSET_LOCK_FEE ==> (r matches Ok(plan) && is_asset_lock_plan(
                    plan,
                    old(self).inner().utxos@.take(k as int),
                    amount,
                    change - ASSET_LOCK_FEE,
                    old(self).inner().address,
                ))
            },
    {
        match self {
            Wallet::SingleKeyWallet(w) => w.asset_lock_transaction(amount),
        }
    }

    /// The plan of the older registration transaction of the single-key wallet:
    /// see [`SingleKeyWallet::registration_transaction`].
    pub fn registration_transaction(&mut self, amount: u64) -> (r: Result<RegistrationPlan, WalletError>)
        requires
            old(self).inner().wf(),
            amount <= i64::MAX,
        ensures
            final(self).inner().wf(),
            final(self).inner().address == old(self).inner().address,
            final(self).inner().private_key == old(self).inner().private_key,
            final(self).inner().public_key == old(self).inner().public_key,
            sum_u64(old(self).inner().values()) < amount ==> {
                &&& final(self).inner().utxos@ == old(self).inner().utxos@
                &&& r matches Err(WalletError::Custom(m))
                &&& m@ == "Not enough balance in wallet"@
            },
            sum_u64(old(self).inner().values()) >= amount ==> {
                let k = (old(self).inner().utxos@.len() - final(self).inner().utxos@.len()) as nat;
                &&& is_covering_prefix(old(self).inner().values(), amount as nat, k)
                &&& final(self).inner().utxos@ == old(self).inner().utxos@.skip(k as int)
                &&& r matches Ok(plan)
                &&& is_registration_plan(
                    plan,
                    old(self).inner().utxos@.take(k as int),
                    amount,
                    sum_u64(old(self).inner().values().take(k as int)) - amount,
                    old(self).inner().address,
                )
            },
    {
        match self {
            Wallet::SingleKeyWallet(w) => w.registration_transaction(amount),
        }
    }

    /// Takes in the outputs read for the wallet's address: see
    /// [`SingleKeyWallet::reload_utxos`].
    pub fn reload_utxos(
        &mut self,
        from_core: Result<Vec<Utxo>, String>,
        fallback: Option<Result<Vec<Utxo>, String>>,
    ) -> (r: Result<(), String>)
        requires
            old(self).inner().wf(),
            from_core is Ok <==> fallback is None,
            from_core matches Ok(u) ==> sum_u64(utxo_values(u@)) <= i64::MAX,
            fallback matches Some(Ok(u)) ==> sum_u64(utxo_values(u@)) <= i64::MAX,
        ensures
            final(self).inner().wf(),
            final(self).inner().address == old(self).inner().address,
            final(self).inner().private_key == old(self).inner().private_key,
            final(self).inner().public_key == old(self).inner().public_key,
            from_core matches Ok(u) ==> r is Ok && final(self).inner().utxos@ == last_of_each(u@),
            fallback matches Some(Ok(u)) ==> r is Ok && final(self).inner().utxos@ == last_of_each(
                u@,
            ),
            from_core matches Err(e1) ==> (fallback matches Some(Err(e2)) ==> (r matches Err(m)
                && m@ == "First error from Core: "@ + e1@ + ", Second Error from Insight: "@ + e2@
                && final(self).inner().utxos@ == old(self).inner().utxos@)),
    {
        match self {
            Wallet::SingleKeyWallet(w) => w.reload_utxos(from_core, fallback),
        }
    }

    /// What the wallet screen says of the wallet: its kind, public key in hex,
    /// address and balance (as the Dash amount text given).
    pub fn description(&self, balance_dash: &String) -> (r: String)
        ensures
            r@ == "Single Key Wallet \npublic key: "@ + hex_lower(self.inner().public_key@)
                + " \naddress: "@ + self.inner().address@ + " \nbalance: "@ + balance_dash@,
    {
        match self {
            Wallet::SingleKeyWallet(w) => {
                let mut out: Vec<char> = Vec::new();
                push_str(&mut out, "Single Key Wallet \npublic key: ");
                let key_hex = hex_encode(w.public_key.as_slice());
                push_string(&mut out, &key_hex);
                push_str(&mut out, " \naddress: ");
                push_string(&mut out, &w.address);
                push_str(&mut out, " \nbalance: ");
                push_string(&mut out, balance_dash);
                string_from_chars(&out)
            },
        }
    }
}

/// Loads the wallet of a key, in place of any wallet loaded before: where the
/// key could not be read or decoded, the loaded wallet stays as it was and the
/// error is returned; otherwise the wallet of the key (its secret bytes, public
/// key and address) is loaded with the outputs read for its address, each
/// outpoint once, or with none where reading them failed.
pub fn add_wallet_by_key(
    state: &mut Option<Wallet>,
    key: Result<(Vec<u8>, Vec<u8>, String), WalletError>,
    read: Result<Vec<Utxo>, String>,
) -> (r: Result<(), WalletError>)
    requires
        read matches Ok(u) ==> sum_u64(utxo_values(u@)) <= i64::MAX,
    ensures
        key matches Err(e) ==> (r matches Err(f) && f.spec_message() == e.spec_message()
            && *final(state) == *old(state)),
        key matches Ok((secret, public, address)) ==> {
            &&& r is Ok
            &&& *final(state) matches Some(w)
            &&& w.inner().wf()
            &&& w.inner().private_key@ == secret@
            &&& w.inner().public_key@ == public@
            &&& w.inner().address@ == address@
            &&& w.inner().utxos@ == match read {
                Ok(u) => last_of_each(u@),
                Err(_) => Seq::empty(),
            }
        },
{
    match key {
        Err(e) => Err(e),
        Ok((private_key, public_key, address)) => {
            let utxos = match read {
                Ok(u) => {
                    proof {
                        lemma_last_of_each(u@);
                    }
                    last_output_of_each(u)
                },
                Err(_) => Vec::new(),
            };
            proof {
                if utxos@.len() == 0 {
                    assert(utxo_values(utxos@) =~= Seq::<u64>::empty());
                }
            }
            *state = Some(
                Wallet::SingleKeyWallet(SingleKeyWallet { private_key, public_key, address, utxos }),
            );
            Ok(())
        },
    }
}

} // verus!
