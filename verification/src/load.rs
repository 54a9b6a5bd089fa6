//! The decisions of the document load test: how many checks it queues, which
//! contract registrations it waits for, when it tops up and reports, and what a
//! check of a broadcast document leads to.
use vstd::prelude::*;

verus! {

/// The most documents whose inclusion the load test checks at once.
pub const MAX_DOCS_TO_CHECK: u64 = 10000;

/// Credits in one Dash.
pub const CREDITS_PER_DASH: u64 = 100_000_000_000;

/// Duffs in one Dash.
pub const DUFFS_PER_DASH: u64 = 100_000_000;

/// The rate that the load test is limited to: the rate asked for, or no limit
/// (the largest rate) where 0 was asked for.
pub fn effective_rate(rate: u32) -> (r: u32)
    ensures
        r == (if rate == 0 {
            u32::MAX
        } else {
            rate
        }),
        r > 0,
{
    if rate == 0 {
        u32::MAX
    } else {
        rate
    }
}

/// The documents broadcast at the (effective) rate during the time to wait for
/// one, and at most `MAX_DOCS_TO_CHECK`.
pub open spec fn docs_to_check_spec(rate: u32, mine_timeout_secs: u32) -> int {
    if effective_rate_spec(rate) * mine_timeout_secs > MAX_DOCS_TO_CHECK {
        MAX_DOCS_TO_CHECK as int
    } else {
        effective_rate_spec(rate) * mine_timeout_secs
    }
}

/// How many documents can wait for their inclusion check: those broadcast at
/// the (effective) rate during the time to wait for one, and at most
/// `MAX_DOCS_TO_CHECK`.
pub fn docs_to_check(rate: u32, mine_timeout_secs: u32) -> (r: u64)
    ensures
        r == docs_to_check_spec(rate, mine_timeout_secs),
{
    let r: u64 = effective_rate(rate) as u64;
    let t: u64 = mine_timeout_secs as u64;
    assert(r * t <= u32::MAX * u32::MAX) by (nonlinear_arith)
        requires
            r <= u32::MAX,
            t <= u32::MAX,
    ;
    let per_timeout: u64 = r * t;
    if per_timeout > MAX_DOCS_TO_CHECK {
        MAX_DOCS_TO_CHECK
    } else {
        per_timeout
    }
}

/// The room of the queue of inclusion checks: `docs_to_check`, and room for
/// one check where that is 0, since a queue needs room; with a timeout of 0 the
/// test does not wait for documents, and each is checked once.
pub fn check_queue_capacity(rate: u32, mine_timeout_secs: u32) -> (r: u64)
    ensures
        r == (if docs_to_check_spec(rate, mine_timeout_secs) == 0 {
            1
        } else {
            docs_to_check_spec(rate, mine_timeout_secs)
        }),
        r >= 1,
{
    let d = docs_to_check(rate, mine_timeout_secs);
    if d == 0 {
        1
    } else {
        d
    }
}

/// The rate that `effective_rate` gives.
pub open spec fn effective_rate_spec(rate: u32) -> int {
    if rate == 0 {
        u32::MAX as int
    } else {
        rate as int
    }
}

/// Whether the registration of the `i`-th contract (of `count`) waits for its
/// result: every `speed`-th one does, and every one of the last, incomplete
/// group.
pub fn waits_for_contract(i: u64, count: u32, speed: u32) -> (r: bool)
    requires
        speed > 0,
    ensures
        r == ((i as nat) % (speed as nat) == 0 || i > (count as nat) - (count as nat) % (speed as nat)),
{
    let rest: u32 = count % speed;
    assert(rest <= count) by (nonlinear_arith)
        requires
            rest == count % speed,
            speed > 0,
    ;
    i % (speed as u64) == 0 || i > ((count - rest) as u64)
}

/// The identity nonces of the contracts still to register, after the highest
/// nonce `identity_nonce` that the identity used.
pub fn registration_nonces(identity_nonce: u64, count_left: u32) -> (r: Vec<u64>)
    requires
        identity_nonce + count_left <= u64::MAX,
    ensures
        r@.len() == count_left,
        forall|k: int| 0 <= k < count_left ==> r@[k] == identity_nonce + k + 1,
{
    let mut r: Vec<u64> = Vec::new();
    let mut k: u32 = 0;
    while k < count_left
        invariant
            k <= count_left,
            identity_nonce + count_left <= u64::MAX,
            r@.len() == k,
            forall|j: int| 0 <= j < k ==> r@[j] == identity_nonce + j + 1,
        decreases count_left - k,
    {
        r.push(identity_nonce + (k as u64) + 1);
        k = k + 1;
    }
    r
}

/// Whether the identity of the load test is topped up before the test: where
/// its credits are below the Dash asked for.
pub fn needs_refill(balance: u64, refill_dash: u64) -> (r: bool)
    requires
        refill_dash * CREDITS_PER_DASH <= u64::MAX,
    ensures
        r == (balance < refill_dash * CREDITS_PER_DASH),
{
    balance < refill_dash * CREDITS_PER_DASH
}

/// An amount of Dash in duffs, the unit that asset locks are made in.
pub fn duffs_of_dash(dash: u64) -> (r: u64)
    requires
        dash * DUFFS_PER_DASH <= u64::MAX,
    ensures
        r == dash * DUFFS_PER_DASH,
{
    dash * DUFFS_PER_DASH
}

/// Whether the progress of the load test is reported now: every ten seconds,
/// once in each such second.
pub fn report_due(elapsed_secs: u64, last_report_secs: u64) -> (r: bool)
    ensures
        r == (elapsed_secs % 10 == 0 && elapsed_secs != last_report_secs),
{
    elapsed_secs % 10 == 0 && elapsed_secs != last_report_secs
}

/// What a query for a broadcast document found.
pub enum CheckOutcome {
    /// The document is on the platform.
    Found,
    /// The document is not there yet.
    Missing,
    /// The query failed.
    Failed,
}

/// What is done with a check of a broadcast document.
#[derive(PartialEq, Eq, Structural)]
pub enum CheckAction {
    /// Count the document as mined and free its contract.
    CountMined,
    /// Queue the check again.
    Retry,
    /// Give up on the document and free its contract.
    GiveUp,
}

/// The deadline of a check has passed: with a time to wait of 0 at once, since
/// the test then does not wait for documents; otherwise once more than the
/// time to wait has elapsed, at the clock's resolution of nanoseconds, since
/// the document was broadcast.
pub open spec fn deadline_passed_spec(elapsed_ns: u128, mine_timeout_secs: u32) -> bool {
    mine_timeout_secs == 0 || elapsed_ns > mine_timeout_secs * 1_000_000_000
}

/// Whether the deadline of a check has passed, `elapsed_ns` nanoseconds after
/// its document was broadcast.
pub fn deadline_passed(elapsed_ns: u128, mine_timeout_secs: u32) -> (r: bool)
    ensures
        r == deadline_passed_spec(elapsed_ns, mine_timeout_secs),
{
    mine_timeout_secs == 0 || elapsed_ns > (mine_timeout_secs as u128) * 1_000_000_000
}

/// A found document is counted; a missing one, or a failed query, is checked
/// again until its deadline passes, and then given up.
pub open spec fn check_action_spec(outcome: CheckOutcome, deadline_passed: bool) -> CheckAction {
    match outcome {
        CheckOutcome::Found => CheckAction::CountMined,
        _ => if deadline_passed {
            CheckAction::GiveUp
        } else {
            CheckAction::Retry
        },
    }
}

/// The action after a check (see `check_action_spec`).
pub fn check_action(outcome: CheckOutcome, deadline_passed: bool) -> (r: CheckAction)
    ensures
        r == check_action_spec(outcome, deadline_passed),
        outcome is Found ==> r == CheckAction::CountMined,
        !(outcome is Found) && !deadline_passed ==> r == CheckAction::Retry,
        !(outcome is Found) && deadline_passed ==> r == CheckAction::GiveUp,
{
    match outcome {
        CheckOutcome::Found => CheckAction::CountMined,
        _ => {
            if deadline_passed {
                CheckAction::GiveUp
            } else {
                CheckAction::Retry
            }
        },
    }
}

/// The contracts that a scan of identity nonces found, in nonce order: one
/// entry per nonce, the contract found under it or none (an error counts as
/// none); the scan stops once `count` contracts are found.
pub open spec fn found_prefix<C>(scan: Seq<Option<C>>, count: nat) -> Seq<C>
    decreases scan.len(),
{
    if scan.len() == 0 || count == 0 {
        Seq::empty()
    } else {
        match scan[0] {
            Some(c) => seq![c] + found_prefix(scan.drop_first(), (count - 1) as nat),
            None => found_prefix(scan.drop_first(), count),
        }
    }
}

/// Whether the scan for existing contracts goes on after finding `found` of
/// the `count` it needs.
pub fn scan_continues(found: usize, count: u32) -> (r: bool)
    ensures
        r == (found < count),
{
    (found as u64) < (count as u64)
}

/// The contracts that the scan found, in nonce order, at most `count` of them.
pub fn found_contracts<C>(scan: Vec<Option<C>>, count: u32) -> (r: Vec<C>)
    requires
        count >= 1,
    ensures
        r@ == found_prefix(scan@, count as nat),
        r@.len() <= count,
{
    let mut found: Vec<C> = Vec::new();
    let mut rest = scan;
    let ghost whole = rest@;
    let mut left: u32 = count;
    while rest.len() > 0 && left > 0
        invariant
            found@ + found_prefix(rest@, left as nat) == found_prefix(whole, count as nat),
            found@.len() + left == count,
        decreases rest@.len(),
    {
        let ghost before = rest@;
        let item = rest.remove(0);
        proof {
            assert(rest@ =~= before.drop_first());
        }
        match item {
            Some(c) => {
                let ghost fb = found@;
                found.push(c);
                proof {
                    assert(found_prefix(before, left as nat) == seq![c] + found_prefix(
                        rest@,
                        (left - 1) as nat,
                    ));
                    assert(found@ + found_prefix(rest@, (left - 1) as nat) =~= fb + (seq![c]
                        + found_prefix(rest@, (left - 1) as nat)));
                }
                left = left - 1;
            },
            None => {},
        }
    }
    proof {
        assert(found_prefix(rest@, left as nat) =~= Seq::<C>::empty());
        assert(found@ + Seq::<C>::empty() =~= found@);
    }
    found
}

/// Where the registration of the variants starts, from whether each variant
/// exists already (in nonce order): where the first does not exist, none is
/// assumed to and all are registered; otherwise the ones after the last that
/// exists are, since those before it exist too.
pub fn first_variant_to_register(exists: &Vec<bool>) -> (r: usize)
    requires
        exists@.len() >= 1,
    ensures
        !exists@[0] ==> r == 0,
        exists@[0] ==> {
            &&& 1 <= r <= exists@.len()
            &&& exists@[r - 1]
            &&& forall|j: int| r <= j < exists@.len() ==> !exists@[j]
        },
{
    if !exists[0] {
        return 0;
    }
    let mut i: usize = exists.len();
    while i > 0
        invariant
            i <= exists@.len(),
            exists@.len() >= 1,
            exists@[0],
            forall|j: int| i <= j < exists@.len() ==> !exists@[j],
        decreases i,
    {
        if exists[i - 1] {
            return i;
        }
        i = i - 1;
    }
    0
}

/// The contracts of a load test: those found, followed by the variants
/// registered for the rest, `count` in all.
pub fn load_test_contracts<C>(found: Vec<C>, variants: Vec<C>, count: u32) -> (r: Vec<C>)
    requires
        found@.len() <= count,
        variants@.len() == count - found@.len(),
    ensures
        r@ == found@ + variants@,
        r@.len() == count,
{
    let mut r = found;
    let mut v = variants;
    r.append(&mut v);
    r
}

/// The contracts and counters of a document load test: each contract is
/// available, held by a broadcast, or held by the check of a broadcast
/// document; the broadcasts accepted and failed, and the documents found mined.
pub struct LoadTestState {
    pub contracts: u64,
    pub available: u64,
    pub broadcasting: u64,
    pub checking: u64,
    pub accepted: u64,
    pub failed: u64,
    pub mined: u64,
}

/// What happens in a load test.
pub enum LoadEvent {
    /// A broadcast takes an available contract for its document.
    Reserved,
    /// The platform accepted the document; its check is queued.
    BroadcastAccepted,
    /// The broadcast failed; its contract is available again.
    BroadcastFailed,
    /// A check of a document found this, with its deadline passed or not.
    Checked(CheckOutcome, bool),
}

/// The state after an event: a reservation moves a contract to a broadcast;
/// an accepted broadcast counts and moves its contract to a check; a failed one
/// counts and frees its contract; a check that counts the document as mined or
/// gives it up frees its contract, and one that is retried keeps it.
pub open spec fn load_after(s: LoadTestState, event: LoadEvent) -> LoadTestState {
    match event {
        LoadEvent::Reserved => LoadTestState {
            available: (s.available - 1) as u64,
            broadcasting: (s.broadcasting + 1) as u64,
            ..s
        },
        LoadEvent::BroadcastAccepted => LoadTestState {
            broadcasting: (s.broadcasting - 1) as u64,
            checking: (s.checking + 1) as u64,
            accepted: (s.accepted + 1) as u64,
            ..s
        },
        LoadEvent::BroadcastFailed => LoadTestState {
            broadcasting: (s.broadcasting - 1) as u64,
            available: (s.available + 1) as u64,
            failed: (s.failed + 1) as u64,
            ..s
        },
        LoadEvent::Checked(outcome, passed) => match check_action_spec(outcome, passed) {
            CheckAction::Retry => s,
            CheckAction::CountMined => LoadTestState {
                checking: (s.checking - 1) as u64,
                available: (s.available + 1) as u64,
                mined: (s.mined + 1) as u64,
                ..s
            },
            CheckAction::GiveUp => LoadTestState {
                checking: (s.checking - 1) as u64,
                available: (s.available + 1) as u64,
                ..s
            },
        },
    }
}

/// The state after a history of events, taken in order.
pub open spec fn load_after_all(s: LoadTestState, events: Seq<LoadEvent>) -> LoadTestState
    decreases events.len(),
{
    if events.len() == 0 {
        s
    } else {
        load_after_all(load_after(s, events[0]), events.drop_first())
    }
}

/// Each event of the history can happen when it comes.
pub open spec fn all_can_take(s: LoadTestState, events: Seq<LoadEvent>) -> bool
    decreases events.len(),
{
    events.len() == 0 || (s.can_take(events[0]) && all_can_take(
        load_after(s, events[0]),
        events.drop_first(),
    ))
}

/// The contracts that the events of a history take from the pool: one per
/// reservation.
pub open spec fn taken_contracts(events: Seq<LoadEvent>) -> nat
    decreases events.len(),
{
    if events.len() == 0 {
        0
    } else {
        (if events[0] is Reserved {
            1nat
        } else {
            0nat
        }) + taken_contracts(events.drop_first())
    }
}

/// The contracts that the events of a history hand back to the pool: one per
/// failed broadcast and one per check that is not retried.
pub open spec fn returned_contracts(events: Seq<LoadEvent>) -> nat
    decreases events.len(),
{
    if events.len() == 0 {
        0
    } else {
        (match events[0] {
            LoadEvent::BroadcastFailed => 1nat,
            LoadEvent::Checked(o, p) => if check_action_spec(o, p) == CheckAction::Retry {
                0nat
            } else {
                1nat
            },
            _ => 0nat,
        }) + returned_contracts(events.drop_first())
    }
}

impl LoadTestState {
    /// Every contract is in exactly one place, and the documents mined or still
    /// checked were all accepted.
    pub open spec fn wf(&self) -> bool {
        &&& self.available + self.broadcasting + self.checking == self.contracts
        &&& self.mined + self.checking <= self.accepted
    }

    /// Whether the event can happen now: a reservation needs an available
    /// contract, a broadcast result a broadcast, a check a queued check; and the
    /// counters have room.
    pub open spec fn can_take(&self, event: LoadEvent) -> bool {
        &&& self.accepted < u64::MAX
        &&& self.failed < u64::MAX
        &&& match event {
            LoadEvent::Reserved => self.available > 0,
            LoadEvent::BroadcastAccepted => self.broadcasting > 0,
            LoadEvent::BroadcastFailed => self.broadcasting > 0,
            LoadEvent::Checked(_, _) => self.checking > 0,
        }
    }

    /// A load test with all its contracts available and nothing broadcast.
    pub fn new(contracts: u64) -> (r: Self)
        ensures
            r.wf(),
            r.contracts == contracts && r.available == contracts,
            r.broadcasting == 0 && r.checking == 0,
            r.accepted == 0 && r.failed == 0 && r.mined == 0,
    {
        LoadTestState {
            contracts,
            available: contracts,
            broadcasting: 0,
            checking: 0,
            accepted: 0,
            failed: 0,
            mined: 0,
        }
    }

    /// Takes an event (see `load_after`) and returns the action of a check.
    pub fn take(&mut self, event: LoadEvent) -> (r: Option<CheckAction>)
        requires
            old(self).wf(),
            old(self).can_take(event),
        ensures
            final(self).wf(),
            *final(self) == load_after(*old(self), event),
            r == match event {
                LoadEvent::Checked(outcome, passed) => Some(check_action_spec(outcome, passed)),
                _ => None,
            },
    {
        match event {
            LoadEvent::Reserved => {
                self.available = self.available - 1;
                self.broadcasting = self.broadcasting + 1;
                None
            },
            LoadEvent::BroadcastAccepted => {
                self.broadcasting = self.broadcasting - 1;
                self.checking = self.checking + 1;
                self.accepted = self.accepted + 1;
                None
            },
            LoadEvent::BroadcastFailed => {
                self.broadcasting = self.broadcasting - 1;
                self.available = self.available + 1;
                self.failed = self.failed + 1;
                None
            },
            LoadEvent::Checked(outcome, passed) => {
                let action = check_action(outcome, passed);
                match action {
                    CheckAction::Retry => {},
                    CheckAction::CountMined => {
                        self.checking = self.checking - 1;
                        self.available = self.available + 1;
                        self.mined = self.mined + 1;
                    },
                    CheckAction::GiveUp => {
                        self.checking = self.checking - 1;
                        self.available = self.available + 1;
                    },
                }
                Some(action)
            },
        }
    }

    /// The documents the test reports as broadcast: those accepted and those
    /// that failed.
    pub fn attempts(&self) -> (r: u128)
        ensures
            r == self.accepted + self.failed,
    {
        self.accepted as u128 + self.failed as u128
    }
}

} // verus!
