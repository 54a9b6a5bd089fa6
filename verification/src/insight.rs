//! The block explorer's answer about unspent outputs: the request for them, and
//! the checks that turn its records into the wallet's outputs.
use vstd::prelude::*;

use crate::codec::{bytes_equal, hex_bytes, hex_decode, is_hex_text};
use vstd::string::StringSliceAdditionalSpecFns;
use crate::text::{join, push_joined, push_str, push_string, string_from_chars};
use crate::wallet::Utxo;

verus! {

/// A field of a record that holds an encoded value: absent, present but not
/// decodable, or decoded.
pub enum EncodedField {
    Missing,
    Invalid,
    Decoded(Vec<u8>),
}

/// The transaction id field of a record, from its text where it has one.
pub fn txid_field(text: Option<&str>) -> (r: EncodedField)
    ensures
        text is None ==> r is Missing,
        text matches Some(t) ==> (if is_hex_text(t.spec_bytes()) && hex_bytes(t.spec_bytes()).len()
            == 32 {
            r matches EncodedField::Decoded(v) && v@ == hex_bytes(t.spec_bytes()).reverse()
        } else {
            r is Invalid
        }),
{
    match text {
        None => EncodedField::Missing,
        Some(t) => match hex_decode(t) {
            Err(_) => EncodedField::Invalid,
            Ok(bytes) => {
                if bytes.len() != 32 {
                    return EncodedField::Invalid;
                }
                let mut out: Vec<u8> = Vec::new();
                let mut i: usize = bytes.len();
                while i > 0
                    invariant
                        i <= bytes@.len(),
                        out@ == bytes@.reverse().take(bytes@.len() - i),
                    decreases i,
                {
                    i = i - 1;
                    out.push(bytes[i]);
                    proof {
                        assert(bytes@.reverse().take(bytes@.len() - i) =~= bytes@.reverse().take(
                            bytes@.len() - i - 1,
                        ).push(bytes@[i as int]));
                    }
                }
                proof {
                    assert(bytes@.reverse().take(bytes@.len() as int) =~= bytes@.reverse());
                }
                EncodedField::Decoded(out)
            },
        },
    }
}

/// The locking script field of a record, from its text where it has one: the
/// bytes of hex text, or invalid.
pub fn script_field(text: Option<&str>) -> (r: EncodedField)
    ensures
        text is None ==> r is Missing,
        text matches Some(t) ==> (if is_hex_text(t.spec_bytes()) {
            r matches EncodedField::Decoded(v) && v@ == hex_bytes(t.spec_bytes())
        } else {
            r is Invalid
        }),
{
    match text {
        None => EncodedField::Missing,
        Some(t) => match hex_decode(t) {
            Ok(bytes) => EncodedField::Decoded(bytes),
            Err(_) => EncodedField::Invalid,
        },
    }
}

/// One record of the explorer's answer, with the fields that the wallet reads.
pub struct UtxoRecord {
    /// The transaction id, decoded from its hex text.
    pub txid: EncodedField,
    /// The output index, where it is an unsigned integer.
    pub vout: Option<u64>,
    /// The value in duffs, where it is an unsigned integer.
    pub satoshis: Option<u64>,
    /// The locking script, decoded from its hex text.
    pub script_pub_key: EncodedField,
}

/// The reading of one record: the output, or the first problem found, in the
/// order txid, vout, amount, script.
pub open spec fn record_reading(r: UtxoRecord) -> Result<(Seq<u8>, u32, u64, Seq<u8>), Seq<char>> {
    match r.txid {
        EncodedField::Missing => Err("Missing txid"@),
        EncodedField::Invalid => Err("Invalid txid format"@),
        EncodedField::Decoded(txid) => match r.vout {
            None => Err("Missing or invalid vout"@),
            Some(vout) => match r.satoshis {
                None => Err("Missing or invalid amount"@),
                Some(value) => match r.script_pub_key {
                    EncodedField::Missing => Err("Missing scriptPubKey"@),
                    EncodedField::Invalid => Err("Invalid scriptPubKey format"@),
                    EncodedField::Decoded(script) => Ok(
                        (txid@, (vout % 0x1_0000_0000) as u32, value, script@),
                    ),
                },
            },
        },
    }
}

fn clone_bytes(v: &Vec<u8>) -> (r: Vec<u8>)
    ensures
        r@ == v@,
{
    let mut r: Vec<u8> = Vec::new();
    let mut i: usize = 0;
    while i < v.len()
        invariant
            i <= v@.len(),
            r@ == v@.take(i as int),
        decreases v@.len() - i,
    {
        r.push(v[i]);
        proof {
            assert(v@.take(i + 1) =~= v@.take(i as int).push(v@[i as int]));
        }
        i = i + 1;
    }
    assert(v@.take(i as int) =~= v@);
    r
}

fn low_u32(v: u64) -> (r: u32)
    ensures
        r == v % 0x1_0000_0000,
{
    (v % 0x1_0000_0000) as u32
}

/// The output that a record describes, or the message of its first problem.
pub fn utxo_from_record(record: &UtxoRecord) -> (r: Result<Utxo, String>)
    ensures
        record_reading(*record) matches Ok(u) ==> (r matches Ok(x) && x.txid@ == u.0 && x.vout
            == u.1 && x.value == u.2 && x.script_pubkey@ == u.3),
        record_reading(*record) matches Err(m) ==> (r matches Err(e) && e@ == m),
{
    let txid = match &record.txid {
        EncodedField::Missing => {
            return Err("Missing txid".to_owned());
        },
        EncodedField::Invalid => {
            return Err("Invalid txid format".to_owned());
        },
        EncodedField::Decoded(t) => clone_bytes(t),
    };
    let vout = match record.vout {
        None => {
            return Err("Missing or invalid vout".to_owned());
        },
        Some(v) => low_u32(v),
    };
    let value = match record.satoshis {
        None => {
            return Err("Missing or invalid amount".to_owned());
        },
        Some(v) => v,
    };
    let script_pubkey = match &record.script_pub_key {
        EncodedField::Missing => {
            return Err("Missing scriptPubKey".to_owned());
        },
        EncodedField::Invalid => {
            return Err("Invalid scriptPubKey format".to_owned());
        },
        EncodedField::Decoded(s) => clone_bytes(s),
    };
    Ok(Utxo { txid, vout, value, script_pubkey })
}

/// The outputs after one more is recorded: an output at the same outpoint
/// (txid and index) is replaced where it stands, any other one is added last.
pub open spec fn record_output(
    outs: Seq<(Seq<u8>, u32, u64, Seq<u8>)>,
    u: (Seq<u8>, u32, u64, Seq<u8>),
) -> Seq<(Seq<u8>, u32, u64, Seq<u8>)> {
    if exists|i: int| 0 <= i < outs.len() && outs[i].0 == u.0 && outs[i].1 == u.1 {
        outs.update(
            choose|i: int| 0 <= i < outs.len() && outs[i].0 == u.0 && outs[i].1 == u.1,
            u,
        )
    } else {
        outs.push(u)
    }
}

/// The outputs that records describe, recorded in order; `None` where one of
/// them has a problem.
pub open spec fn records_outputs(records: Seq<UtxoRecord>) -> Option<
    Seq<(Seq<u8>, u32, u64, Seq<u8>)>,
>
    decreases records.len(),
{
    if records.len() == 0 {
        Some(Seq::empty())
    } else {
        match records_outputs(records.drop_last()) {
            None => None,
            Some(outs) => match record_reading(records.last()) {
                Ok(u) => Some(record_output(outs, u)),
                Err(_) => None,
            },
        }
    }
}

/// The first problem among records, in their order.
pub open spec fn first_record_problem(records: Seq<UtxoRecord>) -> Option<Seq<char>>
    decreases records.len(),
{
    if records.len() == 0 {
        None
    } else {
        match first_record_problem(records.drop_last()) {
            Some(m) => Some(m),
            None => match record_reading(records.last()) {
                Ok(_) => None,
                Err(m) => Some(m),
            },
        }
    }
}

/// The plain values of an output.
pub open spec fn utxo_tuple(u: Utxo) -> (Seq<u8>, u32, u64, Seq<u8>) {
    (u.txid@, u.vout, u.value, u.script_pubkey@)
}

proof fn lemma_outputs_iff_no_problem(records: Seq<UtxoRecord>)
    ensures
        records_outputs(records) is Some <==> first_record_problem(records) is None,
    decreases records.len(),
{
    if records.len() > 0 {
        lemma_outputs_iff_no_problem(records.drop_last());
    }
}

/// The wallet's outputs from the explorer's records: each record read in order,
/// a later output at the same outpoint replacing an earlier one; or the message
/// of the first record that has a problem.
pub fn utxos_from_records(records: &Vec<UtxoRecord>) -> (r: Result<Vec<Utxo>, String>)
    ensures
        r is Ok <==> first_record_problem(records@) is None,
        r matches Ok(v) ==> records_outputs(records@) == Some(v@.map_values(|u: Utxo| utxo_tuple(u))),
        r matches Err(m) ==> first_record_problem(records@) == Some(m@),
        r matches Ok(v) ==> distinct_outpoints(v@.map_values(|u: Utxo| utxo_tuple(u))),
{
    let mut out: Vec<Utxo> = Vec::new();
    let mut i: usize = 0;
    while i < records.len()
        invariant
            i <= records@.len(),
            first_record_problem(records@.take(i as int)) is None,
            records_outputs(records@.take(i as int)) == Some(out@.map_values(|u: Utxo| utxo_tuple(u))),
        decreases records@.len() - i,
    {
        let ghost before = out@.map_values(|u: Utxo| utxo_tuple(u));
        proof {
            let t = records@.take(i + 1);
            assert(t.drop_last() =~= records@.take(i as int));
            assert(t.last() == records@[i as int]);
        }
        match utxo_from_record(&records[i]) {
            Err(m) => {
                proof {
                    lemma_outputs_iff_no_problem(records@);
                    lemma_problem_prefix(records@, i as int + 1);
                }
                return Err(m);
            },
            Ok(u) => {
                let ghost ut = utxo_tuple(u);
                let mut j: usize = 0;
                while j < out.len()
                    invariant
                        j <= out@.len(),
                        before == out@.map_values(|u: Utxo| utxo_tuple(u)),
                        ut == utxo_tuple(u),
                        forall|k: int| 0 <= k < j ==> !(before[k].0 == ut.0 && before[k].1 == ut.1),
                    ensures
                        j <= out@.len(),
                        forall|k: int| 0 <= k < j ==> !(before[k].0 == ut.0 && before[k].1 == ut.1),
                        j < out@.len() ==> (before[j as int].0 == ut.0 && before[j as int].1 == ut.1),
                    decreases out@.len() - j,
                {
                    assert(before[j as int] == utxo_tuple(out@[j as int]));
                    if bytes_equal(&out[j].txid, &u.txid) && out[j].vout == u.vout {
                        break;
                    }
                    j = j + 1;
                }
                let found = j < out.len();
                if found {
                    proof {
                        assert(before[j as int].0 == ut.0 && before[j as int].1 == ut.1);
                        let c = choose|k: int| 0 <= k < before.len() && before[k].0 == ut.0 && before[k].1 == ut.1;
                        assert(c == j) by {
                            if c < j {
                                assert(!(before[c].0 == ut.0 && before[c].1 == ut.1));
                            }
                            if c > j {
                                lemma_outpoints_distinct(records@.take(i as int), before, c, j as int);
                            }
                        }
                    }
                    out.set(j, u);
                    proof {
                        assert(out@.map_values(|u: Utxo| utxo_tuple(u)) =~= before.update(j as int, ut));
                    }
                } else {
                    out.push(u);
                    proof {
                        assert(out@.map_values(|u: Utxo| utxo_tuple(u)) =~= before.push(ut));
                    }
                }
            },
        }
        i = i + 1;
    }
    proof {
        assert(records@.take(i as int) =~= records@);
        lemma_recorded_distinct(records@);
    }
    Ok(out)
}

/// Outputs recorded from records never share an outpoint.
pub open spec fn distinct_outpoints(outs: Seq<(Seq<u8>, u32, u64, Seq<u8>)>) -> bool {
    forall|a: int, b: int|
        0 <= a < outs.len() && 0 <= b < outs.len() && a != b ==> !(outs[a].0 == outs[b].0
            && outs[a].1 == outs[b].1)
}

/// Outputs recorded from records, where none has a problem, never share an
/// outpoint.
pub proof fn lemma_recorded_distinct(records: Seq<UtxoRecord>)
    requires
        records_outputs(records) is Some,
    ensures
        distinct_outpoints(records_outputs(records)->0),
    decreases records.len(),
{
    if records.len() > 0 {
        lemma_recorded_distinct(records.drop_last());
        let outs = records_outputs(records.drop_last())->0;
        let u = record_reading(records.last())->Ok_0;
        if exists|i: int| 0 <= i < outs.len() && outs[i].0 == u.0 && outs[i].1 == u.1 {
            let c = choose|i: int| 0 <= i < outs.len() && outs[i].0 == u.0 && outs[i].1 == u.1;
            let n = outs.update(c, u);
            assert forall|a: int, b: int|
                0 <= a < n.len() && 0 <= b < n.len() && a != b implies !(n[a].0 == n[b].0
                && n[a].1 == n[b].1) by {
                if a == c {
                    assert(n[a].0 == outs[c].0 && n[a].1 == outs[c].1);
                } else if b == c {
                    assert(n[b].0 == outs[c].0 && n[b].1 == outs[c].1);
                }
            }
        } else {
            let n = outs.push(u);
            assert forall|a: int, b: int|
                0 <= a < n.len() && 0 <= b < n.len() && a != b implies !(n[a].0 == n[b].0
                && n[a].1 == n[b].1) by {
                if a == outs.len() as int {
                    assert(!(outs[b].0 == u.0 && outs[b].1 == u.1));
                } else if b == outs.len() as int {
                    assert(!(outs[a].0 == u.0 && outs[a].1 == u.1));
                }
            }
        }
    }
}

proof fn lemma_outpoints_distinct(
    records: Seq<UtxoRecord>,
    outs: Seq<(Seq<u8>, u32, u64, Seq<u8>)>,
    a: int,
    b: int,
)
    requires
        records_outputs(records) == Some(outs),
        0 <= a < outs.len(),
        0 <= b < outs.len(),
        a != b,
    ensures
        !(outs[a].0 == outs[b].0 && outs[a].1 == outs[b].1),
{
    lemma_recorded_distinct(records);
}

proof fn lemma_problem_prefix(records: Seq<UtxoRecord>, n: int)
    requires
        0 <= n <= records.len(),
        first_record_problem(records.take(n)) is Some,
    ensures
        first_record_problem(records) == first_record_problem(records.take(n)),
    decreases records.len(),
{
    if n < records.len() {
        assert(records.drop_last().take(n) =~= records.take(n));
        lemma_problem_prefix(records.drop_last(), n);
    } else {
        assert(records.take(n) =~= records);
    }
}

/// The address of the explorer's service for unspent outputs.
pub fn utxo_request_url(base: &String) -> (r: String)
    ensures
        r@ == base@ + "/addrs/utxo"@,
{
    let mut out: Vec<char> = Vec::new();
    push_string(&mut out, base);
    push_str(&mut out, "/addrs/utxo");
    string_from_chars(&out)
}

/// The body of the request for the unspent outputs of addresses: the addresses,
/// separated by commas.
pub fn utxo_request_body(addresses: &Vec<String>) -> (r: String)
    ensures
        r@ == "addrs="@ + join(addresses@.map_values(|a: String| a@), ","@),
{
    let mut parts: Vec<Vec<char>> = Vec::new();
    let mut i: usize = 0;
    while i < addresses.len()
        invariant
            i <= addresses@.len(),
            parts@.map_values(|p: Vec<char>| p@) =~= addresses@.take(i as int).map_values(
                |a: String| a@,
            ),
        decreases addresses@.len() - i,
    {
        let ghost before = parts@.map_values(|p: Vec<char>| p@);
        let mut part: Vec<char> = Vec::new();
        push_string(&mut part, &addresses[i]);
        parts.push(part);
        proof {
            assert(parts@.map_values(|p: Vec<char>| p@) =~= before.push(addresses@[i as int]@));
            assert(addresses@.take(i + 1) =~= addresses@.take(i as int).push(addresses@[i as int]));
        }
        i = i + 1;
    }
    assert(addresses@.take(i as int) =~= addresses@);
    let mut out: Vec<char> = Vec::new();
    push_str(&mut out, "addrs=");
    push_joined(&mut out, &parts, ",");
    string_from_chars(&out)
}

/// The error of a request that the explorer answered with a failure status.
pub fn request_failed_message(status: &String, body: &String) -> (r: String)
    ensures
        r@ == "Request failed with status "@ + status@ + ": "@ + body@,
{
    let mut out: Vec<char> = Vec::new();
    push_str(&mut out, "Request failed with status ");
    push_string(&mut out, status);
    push_str(&mut out, ": ");
    push_string(&mut out, body);
    string_from_chars(&out)
}

} // verus!
