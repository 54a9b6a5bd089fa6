//! The decisions of a strategy run: when its loop goes on, what a broadcast may
//! take, how failures are classed, and what rates the run reports.
use vstd::prelude::*;

use crate::amounts::{lemma_sum_take_mono, lemma_sum_take_succ, sum_u64};
use crate::contracts::NamedMap;
use crate::text::{contains_text, decimal, push_decimal, push_str, push_string, str_contains, string_from_chars};

verus! {

/// How often the first epoch request of a run is tried again after a failure.
pub const MAX_EPOCH_RETRIES: u8 = 2;

/// The wallet coins that a run needs, in one asset lock each, are more than the
/// wallet holds.
pub open spec fn not_enough_utxos_message(available: nat, needed: nat) -> Seq<char> {
    "Not enough UTXOs available in wallet. Available: "@ + decimal(available) + ". Need: "@
        + decimal(needed) + ". Go to Wallet screen and create more."@
}

/// The answer to a run of a strategy that is not there.
pub open spec fn no_strategy_message(name: Seq<char>) -> Seq<char> {
    "No strategy loaded with name \""@ + name + "\""@
}

/// Rounds 1 and 2 of a run set things up (contracts, identities); load comes
/// after them.
pub open spec fn is_setup_round(loop_index: u64) -> bool {
    loop_index == 1 || loop_index == 2
}

/// A run goes on to the round `loop_index`: in block mode until the height
/// reaches the start height plus the blocks asked for plus the two setup
/// blocks, in time mode while the seconds asked for have not passed; the two
/// setup rounds always run.
pub open spec fn run_continues(
    block_mode: bool,
    height: int,
    initial_height: int,
    blocks_or_seconds: int,
    elapsed_secs: int,
    loop_index: int,
) -> bool {
    (block_mode && height < initial_height + blocks_or_seconds + 2) || (!block_mode && elapsed_secs
        < blocks_or_seconds) || loop_index <= 2
}

/// Whether a run goes on to the round `loop_index` (see `run_continues`).
pub fn continue_strategy_loop(
    block_mode: bool,
    height: u64,
    initial_height: u64,
    blocks_or_seconds: u64,
    elapsed_secs: u64,
    loop_index: u64,
) -> (r: bool)
    requires
        initial_height + blocks_or_seconds + 2 <= u64::MAX,
    ensures
        r == run_continues(
            block_mode,
            height as int,
            initial_height as int,
            blocks_or_seconds as int,
            elapsed_secs as int,
            loop_index as int,
        ),
        loop_index <= 2 ==> r,
        block_mode && loop_index > 2 ==> (r <==> height < initial_height + blocks_or_seconds + 2),
        !block_mode && loop_index > 2 ==> (r <==> elapsed_secs < blocks_or_seconds),
{
    (block_mode && height < initial_height + blocks_or_seconds + 2) || (!block_mode && elapsed_secs
        < blocks_or_seconds) || loop_index <= 2
}

/// Whether the request for the current epoch is tried again after its
/// `retries`-th failure.
pub fn retry_epoch_request(retries: u8) -> (r: bool)
    ensures
        r == (retries < MAX_EPOCH_RETRIES),
{
    retries < MAX_EPOCH_RETRIES
}

/// Time limits and retries that a broadcast is sent with.
pub struct RequestLimits {
    pub connect_timeout_secs: u64,
    pub timeout_secs: u64,
    pub retries: usize,
}

/// The limits of a broadcast in round `loop_index`: the client's defaults
/// (`None`) in the setup rounds; after them 3 s and one retry in block mode, and
/// 1 s and no retry in time mode.
pub fn broadcast_request_limits(block_mode: bool, loop_index: u64) -> (r: Option<RequestLimits>)
    ensures
        is_setup_round(loop_index) ==> r is None,
        !is_setup_round(loop_index) && block_mode ==> r == Some(
            RequestLimits { connect_timeout_secs: 3, timeout_secs: 3, retries: 1 },
        ),
        !is_setup_round(loop_index) && !block_mode ==> r == Some(
            RequestLimits { connect_timeout_secs: 1, timeout_secs: 1, retries: 0 },
        ),
{
    if loop_index == 1 || loop_index == 2 {
        None
    } else if block_mode {
        Some(RequestLimits { connect_timeout_secs: 3, timeout_secs: 3, retries: 1 })
    } else {
        Some(RequestLimits { connect_timeout_secs: 1, timeout_secs: 1, retries: 0 })
    }
}

/// Whether a round waits for the results of its broadcasts (and checks their
/// proofs): always in block mode, and in the setup rounds of time mode.
pub fn waits_for_results(block_mode: bool, loop_index: u64) -> (r: bool)
    ensures
        r == (block_mode || is_setup_round(loop_index)),
{
    block_mode || loop_index == 1 || loop_index == 2
}

/// Whether the identities that a round creates join the identities that later
/// rounds use: only those of the first rounds do.
pub fn records_new_identities(loop_index: u64) -> (r: bool)
    ensures
        r == (loop_index < 3),
{
    loop_index < 3
}

/// Whether a round pauses after its broadcasts to let the network take in the
/// setup: a setup round that prepared transitions does.
pub fn pauses_after_round(loop_index: u64, transitions: usize) -> (r: bool)
    ensures
        r == (transitions > 0 && is_setup_round(loop_index)),
{
    transitions > 0 && (loop_index == 1 || loop_index == 2)
}

/// How long a round in time mode still sleeps so that no round is shorter than
/// a second; rounds in block mode do not sleep.
pub fn pacing_sleep_ms(block_mode: bool, elapsed_ms: u64) -> (r: u64)
    ensures
        r == (if !block_mode && elapsed_ms < 1000 {
            1000 - elapsed_ms
        } else {
            0
        }),
{
    if !block_mode && elapsed_ms < 1000 {
        1000 - elapsed_ms
    } else {
        0
    }
}

/// The classes of broadcast failures that a run counts.
#[derive(PartialEq, Eq, Structural)]
pub enum BroadcastErrorKind {
    InsufficientBalance,
    IdentityNonce,
    RateLimit,
    BroadcastTimeout,
}

/// The class of a broadcast failure by its message: a balance error, a nonce
/// error, and every other failure as a rate limit error.
pub open spec fn broadcast_error_kind(message: Seq<char>) -> BroadcastErrorKind {
    if contains_text(message, "Insufficient identity"@) {
        BroadcastErrorKind::InsufficientBalance
    } else if contains_text(message, "invalid identity nonce"@) {
        BroadcastErrorKind::IdentityNonce
    } else {
        BroadcastErrorKind::RateLimit
    }
}

/// The class of a broadcast failure, from the text of the error.
pub fn classify_broadcast_error(message: &str) -> (r: BroadcastErrorKind)
    ensures
        r == broadcast_error_kind(message@),
{
    if str_contains(message, "Insufficient identity") {
        BroadcastErrorKind::InsufficientBalance
    } else if str_contains(message, "invalid identity nonce") {
        BroadcastErrorKind::IdentityNonce
    } else {
        BroadcastErrorKind::RateLimit
    }
}

/// The failures of a run, counted by class.
pub struct BroadcastErrorTally {
    pub insufficient_balance: u64,
    pub identity_nonce: u64,
    pub rate_limit: u64,
    pub broadcast_timeout: u64,
}

impl BroadcastErrorTally {
    /// No failures yet.
    pub fn new() -> (r: Self)
        ensures
            r.insufficient_balance == 0,
            r.identity_nonce == 0,
            r.rate_limit == 0,
            r.broadcast_timeout == 0,
    {
        BroadcastErrorTally {
            insufficient_balance: 0,
            identity_nonce: 0,
            rate_limit: 0,
            broadcast_timeout: 0,
        }
    }

    /// Counts one failure with the given message under its class.
    pub fn record(&mut self, message: &str)
        requires
            old(self).insufficient_balance < u64::MAX,
            old(self).identity_nonce < u64::MAX,
            old(self).rate_limit < u64::MAX,
        ensures
            final(self).insufficient_balance == old(self).insufficient_balance + (if broadcast_error_kind(message@) == BroadcastErrorKind::InsufficientBalance { 1int } else { 0int }),
            final(self).identity_nonce == old(self).identity_nonce + (if broadcast_error_kind(message@) == BroadcastErrorKind::IdentityNonce { 1int } else { 0int }),
            final(self).rate_limit == old(self).rate_limit + (if broadcast_error_kind(message@) == BroadcastErrorKind::RateLimit { 1int } else { 0int }),
            final(self).broadcast_timeout == old(self).broadcast_timeout,
    {
        match classify_broadcast_error(message) {
            BroadcastErrorKind::InsufficientBalance => {
                self.insufficient_balance = self.insufficient_balance + 1;
            },
            BroadcastErrorKind::IdentityNonce => {
                self.identity_nonce = self.identity_nonce + 1;
            },
            BroadcastErrorKind::RateLimit => {
                self.rate_limit = self.rate_limit + 1;
            },
            BroadcastErrorKind::BroadcastTimeout => {
                self.broadcast_timeout = self.broadcast_timeout + 1;
            },
        }
    }
}

/// How many asset locks a run needs: one per start identity, one per identity
/// insert and one per top up of each top up operation.
pub fn asset_lock_proofs_needed(start_identities: u64, identity_inserts: u64, top_ups: &Vec<u64>) -> (r: u64)
    requires
        start_identities + identity_inserts + sum_u64(top_ups@) <= u64::MAX,
    ensures
        r == start_identities + identity_inserts + sum_u64(top_ups@),
{
    let mut total: u64 = 0;
    let mut i: usize = 0;
    while i < top_ups.len()
        invariant
            i <= top_ups@.len(),
            start_identities + identity_inserts + sum_u64(top_ups@) <= u64::MAX,
            total == sum_u64(top_ups@.take(i as int)),
        decreases top_ups@.len() - i,
    {
        proof {
            lemma_sum_take_succ(top_ups@, i as int);
            lemma_sum_take_mono(top_ups@, i + 1, top_ups@.len() as int);
        }
        total = total + top_ups[i];
        i = i + 1;
    }
    assert(top_ups@.take(i as int) =~= top_ups@);
    start_identities + identity_inserts + total
}

/// Refuses a run that needs more asset locks than the wallet has coins.
pub fn check_enough_utxos(available: usize, needed: u64) -> (r: Result<(), String>)
    ensures
        r is Ok <==> available >= needed,
        r matches Err(m) ==> m@ == not_enough_utxos_message(available as nat, needed as nat),
{
    if (available as u64) < needed {
        let mut out: Vec<char> = Vec::new();
        push_str(&mut out, "Not enough UTXOs available in wallet. Available: ");
        push_decimal(&mut out, available as u64);
        push_str(&mut out, ". Need: ");
        push_decimal(&mut out, needed);
        push_str(&mut out, ". Go to Wallet screen and create more.");
        assert(out@ =~= not_enough_utxos_message(available as nat, needed as nat));
        Err(string_from_chars(&out))
    } else {
        Ok(())
    }
}

/// The error of a run of a strategy that is not there.
pub fn no_strategy_error(name: &String) -> (r: String)
    ensures
        r@ == no_strategy_message(name@),
{
    let mut out: Vec<char> = Vec::new();
    push_str(&mut out, "No strategy loaded with name \"");
    push_string(&mut out, name);
    push_str(&mut out, "\"");
    assert(out@ =~= no_strategy_message(name@));
    string_from_chars(&out)
}

/// The run time that rates are computed over: the seconds the load ran, and at
/// least one.
pub fn load_run_time(elapsed_secs: u64) -> (r: u64)
    ensures
        r == (if elapsed_secs > 1 {
            elapsed_secs
        } else {
            1
        }),
        r >= 1,
{
    if elapsed_secs > 1 {
        elapsed_secs
    } else {
        1
    }
}

/// Transitions per second after the setup: what `count` holds beyond the start
/// contracts and start identities, over the run time; 0 where it holds no more.
pub fn rate_after_setup(count: u32, start_contracts: u32, start_identities: u16, run_time: u64) -> (r: u64)
    requires
        run_time > 0,
        start_contracts + start_identities <= u32::MAX,
    ensures
        r == (if count > start_contracts + start_identities {
            ((count - start_contracts - start_identities) as nat / run_time as nat) as int
        } else {
            0
        }),
{
    let setup: u32 = start_contracts + start_identities as u32;
    if count > setup {
        ((count - setup) as u64) / run_time
    } else {
        0
    }
}

/// The broadcasts of a run, counted: the transitions attempted, and of those
/// broadcast, the ones that the platform accepted and the ones that failed.
pub struct RunTally {
    pub transitions: u32,
    pub accepted: u32,
    pub failed: u32,
}

impl RunTally {
    /// Every broadcast counted is of an attempted transition.
    pub open spec fn wf(&self) -> bool {
        self.accepted + self.failed <= self.transitions
    }

    /// Nothing attempted yet.
    pub fn new() -> (r: Self)
        ensures
            r.wf(),
            r.transitions == 0 && r.accepted == 0 && r.failed == 0,
    {
        RunTally { transitions: 0, accepted: 0, failed: 0 }
    }

    /// Counts the transitions of a round as attempted.
    pub fn attempt(&mut self, count: u32)
        requires
            old(self).wf(),
            old(self).transitions + count <= u32::MAX,
        ensures
            final(self).wf(),
            final(self).transitions == old(self).transitions + count,
            final(self).accepted == old(self).accepted,
            final(self).failed == old(self).failed,
    {
        self.transitions = self.transitions + count;
    }

    /// Counts the result of the broadcast of an attempted transition.
    pub fn record_broadcast(&mut self, accepted: bool)
        requires
            old(self).wf(),
            old(self).accepted + old(self).failed < old(self).transitions,
        ensures
            final(self).wf(),
            final(self).transitions == old(self).transitions,
            final(self).accepted == old(self).accepted + (if accepted { 1int } else { 0int }),
            final(self).failed == old(self).failed + (if accepted { 0int } else { 1int }),
    {
        if accepted {
            self.accepted = self.accepted + 1;
        } else {
            self.failed = self.failed + 1;
        }
    }

    /// The successes that a finished run reports, in block mode as in time mode:
    /// the broadcasts that the platform accepted; never more than the
    /// transitions attempted.
    pub fn success_count(&self) -> (r: u32)
        requires
            self.wf(),
        ensures
            r == self.accepted,
            r <= self.transitions,
    {
        self.accepted
    }
}

/// A strategy run in progress: its mode, the height it started at, the blocks
/// (or seconds) asked for, the current height and round, and its broadcasts.
pub struct StrategyRun {
    pub block_mode: bool,
    pub start_height: u64,
    pub blocks_or_seconds: u64,
    pub height: u64,
    pub loop_index: u64,
    pub tally: RunTally,
}

/// What a finished run reports.
pub struct RunSummary {
    pub start_block_height: u64,
    pub final_block_height: u64,
    pub success_count: u32,
    pub transition_count: u32,
}

impl StrategyRun {
    /// Each round advances the height by one from round 1; in block mode the
    /// height never passes the blocks asked for plus the two setup blocks.
    pub open spec fn wf(&self) -> bool {
        &&& self.tally.wf()
        &&& self.loop_index >= 1
        &&& self.height == self.start_height + self.loop_index - 1
        &&& self.start_height + self.blocks_or_seconds + 2 <= u64::MAX
        &&& self.block_mode ==> self.height <= self.start_height + self.blocks_or_seconds + 2
    }

    /// Whether the run goes on to its next round, `elapsed_secs` after its load
    /// started.
    pub open spec fn spec_goes_on(&self, elapsed_secs: u64) -> bool {
        run_continues(
            self.block_mode,
            self.height as int,
            self.start_height as int,
            self.blocks_or_seconds as int,
            elapsed_secs as int,
            self.loop_index as int,
        )
    }

    /// A run that starts at height `start_height`, in round 1, with nothing
    /// broadcast.
    pub fn start(block_mode: bool, start_height: u64, blocks_or_seconds: u64) -> (r: Self)
        requires
            start_height + blocks_or_seconds + 2 <= u64::MAX,
        ensures
            r.wf(),
            r.block_mode == block_mode,
            r.start_height == start_height,
            r.blocks_or_seconds == blocks_or_seconds,
            r.height == start_height,
            r.loop_index == 1,
            r.tally.transitions == 0 && r.tally.accepted == 0 && r.tally.failed == 0,
    {
        StrategyRun {
            block_mode,
            start_height,
            blocks_or_seconds,
            height: start_height,
            loop_index: 1,
            tally: RunTally::new(),
        }
    }

    /// Whether the run goes on to its next round.
    pub fn goes_on(&self, elapsed_secs: u64) -> (r: bool)
        requires
            self.wf(),
        ensures
            r == self.spec_goes_on(elapsed_secs),
    {
        continue_strategy_loop(
            self.block_mode,
            self.height,
            self.start_height,
            self.blocks_or_seconds,
            elapsed_secs,
            self.loop_index,
        )
    }

    /// Ends a round that went on: counts its attempted transitions and the
    /// results of their broadcasts, and moves to the next block and round.
    pub fn end_round(&mut self, elapsed_secs: u64, attempted: u32, accepted: u32, failed: u32)
        requires
            old(self).wf(),
            old(self).spec_goes_on(elapsed_secs),
            old(self).loop_index < u64::MAX,
            old(self).height < u64::MAX,
            accepted + failed <= attempted,
            old(self).tally.transitions + attempted <= u32::MAX,
        ensures
            final(self).wf(),
            final(self).block_mode == old(self).block_mode,
            final(self).start_height == old(self).start_height,
            final(self).blocks_or_seconds == old(self).blocks_or_seconds,
            final(self).height == old(self).height + 1,
            final(self).loop_index == old(self).loop_index + 1,
            final(self).tally.transitions == old(self).tally.transitions + attempted,
            final(self).tally.accepted == old(self).tally.accepted + accepted,
            final(self).tally.failed == old(self).tally.failed + failed,
    {
        self.tally.attempt(attempted);
        self.tally.accepted = self.tally.accepted + accepted;
        self.tally.failed = self.tally.failed + failed;
        self.height = self.height + 1;
        self.loop_index = self.loop_index + 1;
    }

    /// What a run that does not go on reports: the height it started at, the
    /// height it reached (in block mode, the start height plus the blocks asked
    /// for plus the two setup blocks), the accepted broadcasts and the
    /// transitions attempted.
    pub fn finish(&self, elapsed_secs: u64) -> (r: RunSummary)
        requires
            self.wf(),
            !self.spec_goes_on(elapsed_secs),
        ensures
            r.start_block_height == self.start_height,
            r.final_block_height == self.height,
            self.block_mode ==> r.final_block_height == self.start_height
                + self.blocks_or_seconds + 2,
            r.success_count == self.tally.accepted,
            r.transition_count == self.tally.transitions,
            r.success_count <= r.transition_count,
    {
        RunSummary {
            start_block_height: self.start_height,
            final_block_height: self.height,
            success_count: self.tally.success_count(),
            transition_count: self.tally.transitions,
        }
    }
}

/// Keeps a contract that a contract creation of the run made among the known
/// contracts, under its Base58 identifier, and notes the identifier as one of the
/// run's new contracts.
pub fn record_created_contract<C>(
    known: &mut NamedMap<C>,
    new_contract_ids: &mut Vec<String>,
    id: String,
    contract: C,
)
    requires
        old(known).wf(),
    ensures
        final(known).wf(),
        final(known).view_map() == old(known).view_map().insert(id@, contract),
        final(new_contract_ids)@ == old(new_contract_ids)@.push(id),
{
    new_contract_ids.push(id.clone());
    known.insert(id, contract);
}

/// What a finished run leaves of the contracts: the supporting contracts are
/// forgotten, and so is each contract that the run's contract creations added
/// to the known contracts, under its Base58 identifier.
pub fn end_run_contracts<C>(
    known: &mut NamedMap<C>,
    supporting: &mut NamedMap<C>,
    new_contract_ids: &Vec<String>,
)
    requires
        old(known).wf(),
    ensures
        final(known).wf(),
        final(supporting).wf(),
        final(supporting).view_map() == Map::<Seq<char>, C>::empty(),
        final(known).view_map() == old(known).view_map().remove_keys(
            new_contract_ids@.map_values(|s: String| s@).to_set(),
        ),
{
    let ghost ids = new_contract_ids@.map_values(|s: String| s@);
    let mut i: usize = 0;
    assert(old(known).view_map().remove_keys(ids.take(0).to_set()) =~= old(known).view_map());
    while i < new_contract_ids.len()
        invariant
            ids == new_contract_ids@.map_values(|s: String| s@),
            i <= new_contract_ids@.len(),
            known.wf(),
            known.view_map() == old(known).view_map().remove_keys(ids.take(i as int).to_set()),
        decreases new_contract_ids@.len() - i,
    {
        known.remove(&new_contract_ids[i]);
        proof {
            assert(ids.take(i + 1) =~= ids.take(i as int).push(ids[i as int]));
            ids.take(i as int).lemma_push_to_set_commute(ids[i as int]);
            assert(known.view_map() =~= old(known).view_map().remove_keys(
                ids.take(i + 1).to_set(),
            ));
        }
        i = i + 1;
    }
    proof {
        assert(ids.take(i as int) =~= ids);
    }
    supporting.clear();
}

/// The load rounds of a time mode run that ended before round `loop_index`: all
/// rounds but the two setup rounds.
pub fn load_rounds(loop_index: u64) -> (r: u64)
    requires
        loop_index >= 3,
    ensures
        r == loop_index - 3,
{
    loop_index - 3
}

/// What is left on an identity of the run after its funds go back to the
/// wallet: one million credits stay.
pub const WITHDRAWAL_RESERVE: u64 = 1_000_000;

/// The credits that are withdrawn from an identity created in a run.
pub fn withdrawal_amount(balance: u64) -> (r: u64)
    requires
        balance >= WITHDRAWAL_RESERVE,
    ensures
        r == balance - WITHDRAWAL_RESERVE,
{
    balance - WITHDRAWAL_RESERVE
}

/// Whether a withdrawal counts as done: it succeeded, or it failed only at the
/// check of its proof.
pub fn withdrawal_counts(result: &Result<u64, String>) -> (r: bool)
    ensures
        r == match result {
            Ok(_) => true,
            Err(m) => contains_text(m@, "invalid proof"@),
        },
{
    match result {
        Ok(_) => true,
        Err(m) => str_contains(m.as_str(), "invalid proof"),
    }
}

} // verus!
