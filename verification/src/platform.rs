//! The platform information that the explorer shows: epoch timing, protocol
//! version votes, the validator quorums, the checks on the proof of the credits
//! on the platform, and withdrawal totals.
use vstd::prelude::*;

use crate::amounts::{lemma_sum_take_mono, lemma_sum_take_succ, sum_u64};
use crate::codec::{bytes_equal, hex_encode, hex_lower};
use crate::text::{decimal, join, push_decimal, push_joined, push_str, push_string, string_from_chars};

verus! {

/// The networks that a Dash node runs on.
pub enum CoreNetwork {
    Dash,
    Testnet,
    Devnet,
    Regtest,
    /// A network added after these.
    Other,
}

/// How long an epoch is expected to last on a network, in milliseconds.
pub open spec fn epoch_time_ms(network: CoreNetwork) -> u64 {
    match network {
        CoreNetwork::Dash => 788_400_000,
        CoreNetwork::Testnet => 3_600_000,
        CoreNetwork::Devnet => 3_600_000,
        CoreNetwork::Regtest => 1_200_000,
        CoreNetwork::Other => 3_600_000,
    }
}

/// How long an epoch is expected to last on `network`, in milliseconds.
pub fn epoch_estimated_time_ms(network: &CoreNetwork) -> (r: u64)
    ensures
        r == epoch_time_ms(*network),
{
    match network {
        CoreNetwork::Dash => 788_400_000,
        CoreNetwork::Testnet => 3_600_000,
        CoreNetwork::Devnet => 3_600_000,
        CoreNetwork::Regtest => 1_200_000,
        CoreNetwork::Other => 3_600_000,
    }
}

/// When an epoch that began at `first_block_time_ms` is expected to end.
pub fn epoch_estimated_end_ms(first_block_time_ms: u64, network: &CoreNetwork) -> (r: u64)
    requires
        first_block_time_ms + epoch_time_ms(*network) <= u64::MAX,
    ensures
        r == first_block_time_ms + epoch_time_ms(*network),
{
    first_block_time_ms + epoch_estimated_time_ms(network)
}

/// The line of one protocol version and its votes.
pub open spec fn vote_line(version: u32, votes: Option<u64>) -> Seq<char> {
    "Version "@ + decimal(version as nat) + " -> "@ + match votes {
        Some(n) => decimal(n as nat) + " votes"@,
        None => "No votes"@,
    }
}

/// The lines of the protocol versions, in the order given, one a line.
pub open spec fn votes_text(votes: Seq<(u32, Option<u64>)>) -> Seq<char> {
    join(votes.map_values(|v: (u32, Option<u64>)| vote_line(v.0, v.1)), "\n"@)
}

/// The state of the vote on protocol versions: a line for each version.
pub fn version_votes_info(votes: &Vec<(u32, Option<u64>)>) -> (r: String)
    ensures
        r@ == votes_text(votes@),
{
    let mut lines: Vec<Vec<char>> = Vec::new();
    let mut i: usize = 0;
    while i < votes.len()
        invariant
            i <= votes@.len(),
            lines@.map_values(|p: Vec<char>| p@) =~= votes@.take(i as int).map_values(
                |v: (u32, Option<u64>)| vote_line(v.0, v.1),
            ),
        decreases votes@.len() - i,
    {
        let ghost before = lines@.map_values(|p: Vec<char>| p@);
        let (version, count) = votes[i];
        let mut line: Vec<char> = Vec::new();
        push_str(&mut line, "Version ");
        push_decimal(&mut line, version as u64);
        push_str(&mut line, " -> ");
        match count {
            Some(n) => {
                push_decimal(&mut line, n);
                push_str(&mut line, " votes");
            },
            None => push_str(&mut line, "No votes"),
        }
        proof {
            assert(line@ =~= vote_line(version, count));
        }
        lines.push(line);
        proof {
            assert(lines@.map_values(|p: Vec<char>| p@) =~= before.push(vote_line(version, count)));
            assert(votes@.take(i + 1) =~= votes@.take(i as int).push(votes@[i as int]));
        }
        i = i + 1;
    }
    assert(votes@.take(i as int) =~= votes@);
    let mut out: Vec<char> = Vec::new();
    push_joined(&mut out, &lines, "\n");
    assert(out@ =~= votes_text(votes@));
    string_from_chars(&out)
}

/// A member of a validator set: its ProTxHash and the address of its node.
pub struct ValidatorMember {
    pub pro_tx_hash: Vec<u8>,
    pub node_ip: String,
}

/// A validator set: its quorum hash and its members, by ProTxHash.
pub struct ValidatorSet {
    pub quorum_hash: Vec<u8>,
    pub members: Vec<ValidatorMember>,
}

/// What the platform reports of its current quorums.
pub struct QuorumsInfo {
    pub quorum_hashes: Vec<Vec<u8>>,
    pub current_quorum_hash: Vec<u8>,
    pub validator_sets: Vec<ValidatorSet>,
    pub last_block_proposer: Vec<u8>,
    pub last_platform_block_height: u64,
    pub last_core_block_height: u32,
}

/// The hex of each byte string.
pub open spec fn hex_list(hashes: Seq<Vec<u8>>) -> Seq<Seq<char>> {
    hashes.map_values(|h: Vec<u8>| hex_lower(h@))
}

/// The overview of the current quorums.
pub open spec fn quorums_text(info: QuorumsInfo) -> Seq<char> {
    "CurrentQuorumsInfo {\n    quorum_hashes: [\n        "@ + join(
        hex_list(info.quorum_hashes@),
        ", \n        "@,
    ) + "\n    ],\n    current_quorum_hash: "@ + hex_lower(info.current_quorum_hash@)
        + ",\n    last_block_proposer: "@ + hex_lower(info.last_block_proposer@)
        + ",\n    last_platform_block_height: "@ + decimal(info.last_platform_block_height as nat)
        + ",\n    last_core_block_height: "@ + decimal(info.last_core_block_height as nat) + "\n}"@
}

fn push_hex(out: &mut Vec<char>, bytes: &Vec<u8>)
    ensures
        final(out)@ == old(out)@ + hex_lower(bytes@),
{
    let h = hex_encode(bytes.as_slice());
    push_string(out, &h);
}

/// The overview of the current quorums: their hashes, the current one, the
/// last proposer and the last heights.
pub fn format_current_quorums_info(info: &QuorumsInfo) -> (r: String)
    ensures
        r@ == quorums_text(*info),
{
    let mut parts: Vec<Vec<char>> = Vec::new();
    let mut i: usize = 0;
    while i < info.quorum_hashes.len()
        invariant
            i <= info.quorum_hashes@.len(),
            parts@.map_values(|p: Vec<char>| p@) =~= hex_list(info.quorum_hashes@.take(i as int)),
        decreases info.quorum_hashes@.len() - i,
    {
        let ghost before = parts@.map_values(|p: Vec<char>| p@);
        let mut part: Vec<char> = Vec::new();
        push_hex(&mut part, &info.quorum_hashes[i]);
        parts.push(part);
        proof {
            assert(parts@.map_values(|p: Vec<char>| p@) =~= before.push(
                hex_lower(info.quorum_hashes@[i as int]@),
            ));
            assert(info.quorum_hashes@.take(i + 1) =~= info.quorum_hashes@.take(i as int).push(
                info.quorum_hashes@[i as int],
            ));
        }
        i = i + 1;
    }
    assert(info.quorum_hashes@.take(i as int) =~= info.quorum_hashes@);
    let mut out: Vec<char> = Vec::new();
    push_str(&mut out, "CurrentQuorumsInfo {\n    quorum_hashes: [\n        ");
    push_joined(&mut out, &parts, ", \n        ");
    push_str(&mut out, "\n    ],\n    current_quorum_hash: ");
    push_hex(&mut out, &info.current_quorum_hash);
    push_str(&mut out, ",\n    last_block_proposer: ");
    push_hex(&mut out, &info.last_block_proposer);
    push_str(&mut out, ",\n    last_platform_block_height: ");
    push_decimal(&mut out, info.last_platform_block_height);
    push_str(&mut out, ",\n    last_core_block_height: ");
    push_decimal(&mut out, info.last_core_block_height as u64);
    push_str(&mut out, "\n}");
    assert(out@ =~= quorums_text(*info));
    string_from_chars(&out)
}

/// The line of a validator; an arrow marks the one that proposed the last
/// block.
pub open spec fn member_line(m: ValidatorMember, marked: bool) -> Seq<char> {
    (if marked {
        "    ---> "@
    } else {
        "    - "@
    }) + hex_lower(m.pro_tx_hash@) + " - "@ + m.node_ip@ + " \n"@
}

/// The lines of the validators of a set; the last proposer is marked where the
/// set is the current quorum.
pub open spec fn members_text(
    members: Seq<ValidatorMember>,
    proposer: Seq<u8>,
    current: bool,
) -> Seq<char>
    decreases members.len(),
{
    if members.len() == 0 {
        Seq::empty()
    } else {
        members_text(members.drop_last(), proposer, current) + member_line(
            members.last(),
            current && members.last().pro_tx_hash@ == proposer,
        )
    }
}

/// The block of a validator set in the queue: its quorum hash, then its
/// validators (in the reduced queue, only for the current quorum).
pub open spec fn set_block(set: ValidatorSet, hash: Seq<u8>, info: QuorumsInfo, reduced: bool) -> Seq<
    char,
> {
    let current = set.quorum_hash@ == info.current_quorum_hash@;
    hex_lower(hash) + "\n"@ + if !reduced || current {
        members_text(set.members@, info.last_block_proposer@, current)
    } else {
        Seq::empty()
    }
}

/// The queue of validators: for each set, its quorum hash and its validators.
pub open spec fn queue_text(info: QuorumsInfo, n: int, reduced: bool) -> Seq<char>
    decreases n,
{
    if n <= 0 {
        Seq::empty()
    } else {
        queue_text(info, n - 1, reduced) + set_block(
            info.validator_sets@[n - 1],
            info.quorum_hashes@[n - 1]@,
            info,
            reduced,
        )
    }
}

fn push_members(out: &mut Vec<char>, members: &Vec<ValidatorMember>, proposer: &Vec<u8>, current: bool)
    ensures
        final(out)@ == old(out)@ + members_text(members@, proposer@, current),
{
    let ghost start = out@;
    let mut j: usize = 0;
    while j < members.len()
        invariant
            j <= members@.len(),
            out@ == start + members_text(members@.take(j as int), proposer@, current),
        decreases members@.len() - j,
    {
        let m = &members[j];
        let marked = current && bytes_equal(&m.pro_tx_hash, proposer);
        let mut line: Vec<char> = Vec::new();
        if marked {
            push_str(&mut line, "    ---> ");
        } else {
            push_str(&mut line, "    - ");
        }
        push_hex(&mut line, &m.pro_tx_hash);
        push_str(&mut line, " - ");
        push_string(&mut line, &m.node_ip);
        push_str(&mut line, " \n");
        proof {
            assert(line@ =~= member_line(members@[j as int], marked));
            let t = members@.take(j + 1);
            assert(t.drop_last() =~= members@.take(j as int));
            assert(t.last() == members@[j as int]);
            assert(members_text(t, proposer@, current) == members_text(
                members@.take(j as int),
                proposer@,
                current,
            ) + line@);
        }
        let text = string_from_chars(&line);
        push_string(out, &text);
        proof {
            assert(out@ =~= start + members_text(members@.take(j + 1), proposer@, current));
        }
        j = j + 1;
    }
    assert(members@.take(j as int) =~= members@);
}

/// The queue of validators of all sets, or (`reduced`) of the current quorum
/// only; the quorum hashes go with the sets one for one.
pub fn format_quorums_queue(info: &QuorumsInfo, reduced: bool) -> (r: String)
    requires
        info.validator_sets@.len() <= info.quorum_hashes@.len(),
    ensures
        r@ == queue_text(*info, info.validator_sets@.len() as int, reduced),
{
    let mut out: Vec<char> = Vec::new();
    let mut i: usize = 0;
    while i < info.validator_sets.len()
        invariant
            i <= info.validator_sets@.len(),
            info.validator_sets@.len() <= info.quorum_hashes@.len(),
            out@ == queue_text(*info, i as int, reduced),
        decreases info.validator_sets@.len() - i,
    {
        let set = &info.validator_sets[i];
        push_hex(&mut out, &info.quorum_hashes[i]);
        push_str(&mut out, "\n");
        let current = bytes_equal(&set.quorum_hash, &info.current_quorum_hash);
        if !reduced || current {
            push_members(&mut out, &set.members, &info.last_block_proposer, current);
        }
        i = i + 1;
    }
    string_from_chars(&out)
}

/// The queue of validators of all sets, with the last proposer marked in the
/// current quorum.
pub fn format_current_quorums_info_to_show_queue_only(info: &QuorumsInfo) -> (r: String)
    requires
        info.validator_sets@.len() <= info.quorum_hashes@.len(),
    ensures
        r@ == queue_text(*info, info.validator_sets@.len() as int, false),
{
    format_quorums_queue(info, false)
}

/// The quorum hashes of all sets and the validators of the current quorum only,
/// with the last proposer marked.
pub fn format_current_quorums_info_to_show_reduced_queue_only(info: &QuorumsInfo) -> (r: String)
    requires
        info.validator_sets@.len() <= info.quorum_hashes@.len(),
    ensures
        r@ == queue_text(*info, info.validator_sets@.len() as int, true),
{
    format_quorums_queue(info, true)
}

/// A value that a proof shows: its path, its key, and its bytes where it is an
/// item.
pub struct ProvedValue {
    pub path: Vec<Vec<u8>>,
    pub key: Vec<u8>,
    pub item: Option<Vec<u8>>,
}

/// The two values that the proof of the credits on the platform is read for.
pub enum ProvedLookup {
    /// The index of the epoch that is not paid yet.
    UnpaidEpochIndex,
    /// The core height at which that epoch started.
    StartCoreHeight,
}

/// Why a proof does not show the value asked for.
pub enum ProofReadingError {
    Missing,
    WrongPath,
    WrongKey,
    NotItem,
}

/// The message of a proof that does not show the value asked for.
pub open spec fn proof_reading_message(lookup: ProvedLookup, e: ProofReadingError) -> Seq<char> {
    match lookup {
        ProvedLookup::UnpaidEpochIndex => match e {
            ProofReadingError::Missing =>
                "This proof would show that Platform has not yet been initialized as we can not find a start index"@,
            ProofReadingError::WrongPath =>
                "The result of this proof is not what we asked for (unpaid epoch path)"@,
            ProofReadingError::WrongKey =>
                "The result of this proof is not what we asked for (unpaid epoch key)"@,
            ProofReadingError::NotItem => "We are expecting an item for the epoch index"@,
        },
        ProvedLookup::StartCoreHeight => match e {
            ProofReadingError::Missing =>
                "We can not find the start core height of the unpaid epoch"@,
            ProofReadingError::WrongPath =>
                "The result of this proof is not what we asked for (start core height path)"@,
            ProofReadingError::WrongKey =>
                "The result of this proof is not what we asked for (start core height key)"@,
            ProofReadingError::NotItem =>
                "We are expecting an item for the start core height of the unpaid epoch"@,
        },
    }
}

/// The view of a path.
pub open spec fn path_view(path: Seq<Vec<u8>>) -> Seq<Seq<u8>> {
    path.map_values(|p: Vec<u8>| p@)
}

fn paths_equal(a: &Vec<Vec<u8>>, b: &Vec<Vec<u8>>) -> (r: bool)
    ensures
        r == (path_view(a@) == path_view(b@)),
{
    if a.len() != b.len() {
        proof {
            assert(path_view(a@).len() != path_view(b@).len());
        }
        return false;
    }
    let mut i: usize = 0;
    while i < a.len()
        invariant
            a@.len() == b@.len(),
            i <= a@.len(),
            forall|k: int| 0 <= k < i ==> a@[k]@ == b@[k]@,
        decreases a@.len() - i,
    {
        if !bytes_equal(&a[i], &b[i]) {
            proof {
                assert(path_view(a@)[i as int] != path_view(b@)[i as int]);
            }
            return false;
        }
        i = i + 1;
    }
    assert(path_view(a@) =~= path_view(b@));
    true
}

/// The reading of the last value that a proof shows, for the value at `path`
/// and `key`: its bytes where it is the item asked for.
pub open spec fn proved_item_spec(
    found: Option<ProvedValue>,
    path: Seq<Seq<u8>>,
    key: Seq<u8>,
) -> Result<Seq<u8>, ProofReadingError> {
    match found {
        None => Err(ProofReadingError::Missing),
        Some(v) => if path_view(v.path@) != path {
            Err(ProofReadingError::WrongPath)
        } else if v.key@ != key {
            Err(ProofReadingError::WrongKey)
        } else {
            match v.item {
                Some(bytes) => Ok(bytes@),
                None => Err(ProofReadingError::NotItem),
            }
        },
    }
}

/// The bytes of the item that a proof shows for `path` and `key`, or the
/// message that says why it does not show it.
pub fn proved_item(found: Option<ProvedValue>, path: &Vec<Vec<u8>>, key: &Vec<u8>, lookup: ProvedLookup) -> (r:
    Result<Vec<u8>, String>)
    ensures
        proved_item_spec(found, path_view(path@), key@) matches Ok(b) ==> (r matches Ok(v)
            && v@ == b),
        proved_item_spec(found, path_view(path@), key@) matches Err(e) ==> (r matches Err(m)
            && m@ == proof_reading_message(lookup, e)),
{
    let e = match found {
        None => ProofReadingError::Missing,
        Some(v) => {
            if !paths_equal(&v.path, path) {
                ProofReadingError::WrongPath
            } else if !bytes_equal(&v.key, key) {
                ProofReadingError::WrongKey
            } else {
                match v.item {
                    Some(bytes) => {
                        return Ok(bytes);
                    },
                    None => ProofReadingError::NotItem,
                }
            }
        },
    };
    let m = match lookup {
        ProvedLookup::UnpaidEpochIndex => match e {
            ProofReadingError::Missing =>
                "This proof would show that Platform has not yet been initialized as we can not find a start index",
            ProofReadingError::WrongPath =>
                "The result of this proof is not what we asked for (unpaid epoch path)",
            ProofReadingError::WrongKey =>
                "The result of this proof is not what we asked for (unpaid epoch key)",
            ProofReadingError::NotItem => "We are expecting an item for the epoch index",
        },
        ProvedLookup::StartCoreHeight => match e {
            ProofReadingError::Missing => "We can not find the start core height of the unpaid epoch",
            ProofReadingError::WrongPath =>
                "The result of this proof is not what we asked for (start core height path)",
            ProofReadingError::WrongKey =>
                "The result of this proof is not what we asked for (start core height key)",
            ProofReadingError::NotItem =>
                "We are expecting an item for the start core height of the unpaid epoch",
        },
    };
    Err(m.to_owned())
}

/// The big-endian value of two bytes: an epoch index.
pub fn epoch_index_from_be_bytes(bytes: &Vec<u8>) -> (r: u16)
    requires
        bytes@.len() == 2,
    ensures
        r == bytes@[0] * 256 + bytes@[1],
{
    (bytes[0] as u16) * 256 + (bytes[1] as u16)
}

/// The big-endian value of four bytes: a core height.
pub fn core_height_from_be_bytes(bytes: &Vec<u8>) -> (r: u32)
    requires
        bytes@.len() == 4,
    ensures
        r == ((bytes@[0] * 256 + bytes@[1]) * 256 + bytes@[2]) * 256 + bytes@[3],
{
    let b0: u32 = bytes[0] as u32;
    let b1: u32 = bytes[1] as u32;
    let b2: u32 = bytes[2] as u32;
    let b3: u32 = bytes[3] as u32;
    assert(((b0 * 256 + b1) * 256 + b2) * 256 + b3 <= u32::MAX) by (nonlinear_arith)
        requires
            b0 < 256,
            b1 < 256,
            b2 < 256,
            b3 < 256,
    ;
    ((b0 * 256 + b1) * 256 + b2) * 256 + b3
}

/// The credits of all the withdrawals listed.
pub fn total_withdrawal_amount(amounts: &Vec<u64>) -> (r: u64)
    requires
        sum_u64(amounts@) <= u64::MAX,
    ensures
        r == sum_u64(amounts@),
{
    let mut total: u64 = 0;
    let mut i: usize = 0;
    while i < amounts.len()
        invariant
            i <= amounts@.len(),
            sum_u64(amounts@) <= u64::MAX,
            total == sum_u64(amounts@.take(i as int)),
        decreases amounts@.len() - i,
    {
        proof {
            lemma_sum_take_succ(amounts@, i as int);
            lemma_sum_take_mono(amounts@, i + 1, amounts@.len() as int);
        }
        total = total + amounts[i];
        i = i + 1;
    }
    assert(amounts@.take(i as int) =~= amounts@);
    total
}

/// The credits that can still be withdrawn today: the daily limit less what was
/// withdrawn in the last day (a negative sum is read as its two's complement,
/// which leaves nothing), and never below zero.
pub fn withdrawable_now(daily_limit: u64, recent: i64) -> (r: u64)
    ensures
        r == (if recent >= 0 {
            if daily_limit >= recent {
                daily_limit - recent
            } else {
                0
            }
        } else {
            if daily_limit >= recent + 0x1_0000_0000_0000_0000 {
                daily_limit - (recent + 0x1_0000_0000_0000_0000)
            } else {
                0
            }
        }),
{
    let taken: u64 = if recent >= 0 {
        recent as u64
    } else {
        let magnitude: u64 = ((-(recent + 1)) as u64) + 1;
        u64::MAX - magnitude + 1
    };
    daily_limit.saturating_sub(taken)
}

/// What the epoch screen shows of an epoch, with the times already written out
/// as text.
pub struct EpochInfoView {
    pub protocol_version: u32,
    pub height: u64,
    pub core_height: u32,
    pub time_ms: u64,
    /// How long ago the last block was made, in words.
    pub block_time_ago: String,
    /// Whether the epoch is the current one.
    pub is_current: bool,
    pub index: u16,
    pub first_block_height: u64,
    pub first_core_block_height: u32,
    pub first_block_time: u64,
    /// When the epoch started, as a local date.
    pub start_time_text: String,
    /// How long ago the epoch started, in words.
    pub start_time_ago: String,
    /// How far the estimated end is, in words.
    pub estimated_end_text: String,
    pub fee_multiplier_permille: u64,
    /// The proof of the answer, as text.
    pub proof_text: String,
}

/// The text of an epoch: the current heights and time, then the epoch's start,
/// its estimated end on `network` and its fee multiplier, then the proof.
pub open spec fn epoch_info_text(e: EpochInfoView, network: CoreNetwork) -> Seq<char> {
    "protocol version: "@ + decimal(e.protocol_version as nat) + "\n current height: "@ + decimal(
        e.height as nat,
    ) + "\ncurrent core height: "@ + decimal(e.core_height as nat) + "\ncurrent block time: "@
        + decimal(e.time_ms as nat) + " ("@ + e.block_time_ago@ + ")\n"@ + (if e.is_current {
        "in "@
    } else {
        Seq::empty()
    }) + "epoch: "@ + decimal(e.index as nat) + "\n * start height: "@ + decimal(
        e.first_block_height as nat,
    ) + "\n * start core height: "@ + decimal(e.first_core_block_height as nat)
        + "\n * start time: "@ + decimal(e.first_block_time as nat) + " ("@ + e.start_time_text@
        + " - "@ + e.start_time_ago@ + ")\n * estimated end time: "@ + decimal(
        (e.first_block_time + epoch_time_ms(network)) as nat,
    ) + " ("@ + e.estimated_end_text@ + ")\n * fee multiplier: "@ + decimal(
        e.fee_multiplier_permille as nat,
    ) + "\n\nproof: "@ + e.proof_text@
}

/// The text of an epoch, as the epoch screen shows it.
pub fn format_extended_epoch_info(e: &EpochInfoView, network: &CoreNetwork) -> (r: String)
    requires
        e.first_block_time + epoch_time_ms(*network) <= u64::MAX,
    ensures
        r@ == epoch_info_text(*e, *network),
{
    let mut out: Vec<char> = Vec::new();
    push_str(&mut out, "protocol version: ");
    push_decimal(&mut out, e.protocol_version as u64);
    push_str(&mut out, "\n current height: ");
    push_decimal(&mut out, e.height);
    push_str(&mut out, "\ncurrent core height: ");
    push_decimal(&mut out, e.core_height as u64);
    push_str(&mut out, "\ncurrent block time: ");
    push_decimal(&mut out, e.time_ms);
    push_str(&mut out, " (");
    push_string(&mut out, &e.block_time_ago);
    push_str(&mut out, ")\n");
    if e.is_current {
        push_str(&mut out, "in ");
    }
    push_str(&mut out, "epoch: ");
    push_decimal(&mut out, e.index as u64);
    push_str(&mut out, "\n * start height: ");
    push_decimal(&mut out, e.first_block_height);
    push_str(&mut out, "\n * start core height: ");
    push_decimal(&mut out, e.first_core_block_height as u64);
    push_str(&mut out, "\n * start time: ");
    push_decimal(&mut out, e.first_block_time);
    push_str(&mut out, " (");
    push_string(&mut out, &e.start_time_text);
    push_str(&mut out, " - ");
    push_string(&mut out, &e.start_time_ago);
    push_str(&mut out, ")\n * estimated end time: ");
    push_decimal(&mut out, epoch_estimated_end_ms(e.first_block_time, network));
    push_str(&mut out, " (");
    push_string(&mut out, &e.estimated_end_text);
    push_str(&mut out, ")\n * fee multiplier: ");
    push_decimal(&mut out, e.fee_multiplier_permille);
    push_str(&mut out, "\n\nproof: ");
    push_string(&mut out, &e.proof_text);
    assert(out@ =~= epoch_info_text(*e, *network));
    string_from_chars(&out)
}

/// What the screen of the credits on the platform shows, with the time, the
/// Dash amount and the proof already written out as text.
pub struct TotalCreditsView {
    pub height: u64,
    pub start_core_height: u32,
    /// The index of the epoch that is not paid yet.
    pub epoch_index: u16,
    /// The core height at which the platform was activated.
    pub activation_height: u32,
    pub core_height: u32,
    pub subsidy_interval: u32,
    pub time_ms: u64,
    /// How long ago the last block was made, in words.
    pub block_time_ago: String,
    pub total_credits: u64,
    /// The credits in Dash, with four decimals.
    pub dash_amount: String,
    /// The proof of the answer, as text.
    pub proof_text: String,
}

/// The activation height is asked of the node, and shown, only while the
/// unpaid epoch is the first one.
pub open spec fn shows_activation_height(epoch_index: u16) -> bool {
    epoch_index == 0
}

/// Whether the activation height is asked for: only where the unpaid epoch is
/// the first one.
pub fn needs_activation_height(epoch_index: u16) -> (r: bool)
    ensures
        r == shows_activation_height(epoch_index),
{
    epoch_index == 0
}

/// The text of the credits on the platform; the activation height is shown in
/// the first epoch only.
pub open spec fn total_credits_text(t: TotalCreditsView) -> Seq<char> {
    "current height: "@ + decimal(t.height as nat) + "\ncurrent epoch start core height: "@
        + decimal(t.start_core_height as nat) + "\n"@ + (if shows_activation_height(t.epoch_index) {
        "activation height: "@ + decimal(t.activation_height as nat) + "\n"@
    } else {
        Seq::empty()
    }) + "current core height: "@ + decimal(t.core_height as nat) + "\nsubsidy interval: "@
        + decimal(t.subsidy_interval as nat) + "\ncurrent block time: "@ + decimal(
        t.time_ms as nat,
    ) + " ("@ + t.block_time_ago@ + ")\ntotal_credits_on_platform "@ + decimal(
        t.total_credits as nat,
    ) + " ("@ + t.dash_amount@ + " Dash)\n\nproof: "@ + t.proof_text@
}

/// The text of the credits on the platform, as its screen shows it.
pub fn format_total_credits_on_platform(t: &TotalCreditsView) -> (r: String)
    ensures
        r@ == total_credits_text(*t),
{
    let mut out: Vec<char> = Vec::new();
    push_str(&mut out, "current height: ");
    push_decimal(&mut out, t.height);
    push_str(&mut out, "\ncurrent epoch start core height: ");
    push_decimal(&mut out, t.start_core_height as u64);
    push_str(&mut out, "\n");
    if needs_activation_height(t.epoch_index) {
        push_str(&mut out, "activation height: ");
        push_decimal(&mut out, t.activation_height as u64);
        push_str(&mut out, "\n");
    }
    push_str(&mut out, "current core height: ");
    push_decimal(&mut out, t.core_height as u64);
    push_str(&mut out, "\nsubsidy interval: ");
    push_decimal(&mut out, t.subsidy_interval as u64);
    push_str(&mut out, "\ncurrent block time: ");
    push_decimal(&mut out, t.time_ms);
    push_str(&mut out, " (");
    push_string(&mut out, &t.block_time_ago);
    push_str(&mut out, ")\ntotal_credits_on_platform ");
    push_decimal(&mut out, t.total_credits);
    push_str(&mut out, " (");
    push_string(&mut out, &t.dash_amount);
    push_str(&mut out, " Dash)\n\nproof: ");
    push_string(&mut out, &t.proof_text);
    assert(out@ =~= total_credits_text(*t));
    string_from_chars(&out)
}

/// A withdrawal as the withdrawal screens list it, with its date, amount,
/// owner, address and status already written out as text.
pub struct WithdrawalLine {
    pub date: String,
    /// The amount in Dash, with eight decimals.
    pub amount_dash: String,
    pub owner: String,
    pub address: String,
    pub status: String,
    pub transaction_index: u64,
}

/// The line of a withdrawal: a queued one by its date, a completed one by its
/// transaction index, with its date after its status.
pub open spec fn withdrawal_line_text(w: WithdrawalLine, completed: bool) -> Seq<char> {
    if completed {
        decimal(w.transaction_index as nat) + " "@ + w.amount_dash@ + " Dash for "@ + w.owner@
            + " towards "@ + w.address@ + " ("@ + w.status@ + " at "@ + w.date@ + ")"@
    } else {
        w.date@ + ": "@ + w.amount_dash@ + " Dash for "@ + w.owner@ + " towards "@ + w.address@
            + " ("@ + w.status@ + ")"@
    }
}

/// The Dash amounts of a withdrawal screen, written out as text.
pub struct WithdrawalTotals {
    pub total_dash: String,
    pub withdrawn_last_day_dash: String,
    pub daily_limit_dash: String,
    pub withdrawable_dash: String,
}

/// The text of a withdrawal screen: the total, the withdrawals, what was
/// withdrawn in the last day, the daily limit and what can still be withdrawn.
pub open spec fn withdrawals_text(lines: Seq<WithdrawalLine>, completed: bool, t: WithdrawalTotals) -> Seq<
    char,
> {
    "total amount "@ + t.total_dash@ + " Dash\namounts {\n    "@ + join(
        lines.map_values(|w: WithdrawalLine| withdrawal_line_text(w, completed)),
        ", \n    "@,
    ) + "\n}\nwithdrew "@ + t.withdrawn_last_day_dash@ + " Dash in last 24 hours\ndaily withdrawal limit is "@
        + t.daily_limit_dash@ + " Dash\ncurrently can withdraw "@ + t.withdrawable_dash@
        + " Dash\n"@
}

/// The text of a withdrawal screen: the queued withdrawals, or (`completed`)
/// the ones completed recently.
pub fn format_withdrawals(lines: &Vec<WithdrawalLine>, completed: bool, t: &WithdrawalTotals) -> (r:
    String)
    ensures
        r@ == withdrawals_text(lines@, completed, *t),
{
    let mut parts: Vec<Vec<char>> = Vec::new();
    let mut i: usize = 0;
    while i < lines.len()
        invariant
            i <= lines@.len(),
            parts@.map_values(|p: Vec<char>| p@) =~= lines@.take(i as int).map_values(
                |w: WithdrawalLine| withdrawal_line_text(w, completed),
            ),
        decreases lines@.len() - i,
    {
        let ghost before = parts@.map_values(|p: Vec<char>| p@);
        let w = &lines[i];
        let mut line: Vec<char> = Vec::new();
        if completed {
            push_decimal(&mut line, w.transaction_index);
            push_str(&mut line, " ");
            push_string(&mut line, &w.amount_dash);
            push_str(&mut line, " Dash for ");
            push_string(&mut line, &w.owner);
            push_str(&mut line, " towards ");
            push_string(&mut line, &w.address);
            push_str(&mut line, " (");
            push_string(&mut line, &w.status);
            push_str(&mut line, " at ");
            push_string(&mut line, &w.date);
            push_str(&mut line, ")");
        } else {
            push_string(&mut line, &w.date);
            push_str(&mut line, ": ");
            push_string(&mut line, &w.amount_dash);
            push_str(&mut line, " Dash for ");
            push_string(&mut line, &w.owner);
            push_str(&mut line, " towards ");
            push_string(&mut line, &w.address);
            push_str(&mut line, " (");
            push_string(&mut line, &w.status);
            push_str(&mut line, ")");
        }
        proof {
            assert(line@ =~= withdrawal_line_text(*w, completed));
        }
        let ghost lt = line@;
        parts.push(line);
        proof {
            assert(parts@.map_values(|p: Vec<char>| p@) =~= before.push(lt));
            assert(lines@.take(i + 1) =~= lines@.take(i as int).push(lines@[i as int]));
        }
        i = i + 1;
    }
    assert(lines@.take(i as int) =~= lines@);
    let mut out: Vec<char> = Vec::new();
    push_str(&mut out, "total amount ");
    push_string(&mut out, &t.total_dash);
    push_str(&mut out, " Dash\namounts {\n    ");
    push_joined(&mut out, &parts, ", \n    ");
    push_str(&mut out, "\n}\nwithdrew ");
    push_string(&mut out, &t.withdrawn_last_day_dash);
    push_str(&mut out, " Dash in last 24 hours\ndaily withdrawal limit is ");
    push_string(&mut out, &t.daily_limit_dash);
    push_str(&mut out, " Dash\ncurrently can withdraw ");
    push_string(&mut out, &t.withdrawable_dash);
    push_str(&mut out, " Dash\n");
    assert(out@ =~= withdrawals_text(lines@, completed, *t));
    string_from_chars(&out)
}

} // verus!
