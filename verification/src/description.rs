//! The short descriptions of strategies that the strategy screens show.
use vstd::prelude::*;

use crate::contracts::NamedMap;
use crate::text::{
    chars_of, decimal, join, push_decimal, push_joined, push_str, push_string, string_from_chars,
};

verus! {

/// Text values under text keys, in text order of the keys.
pub struct TextMap {
    pub inner: NamedMap<String>,
}

impl TextMap {
    /// Keys are in strictly increasing text order.
    pub open spec fn wf(&self) -> bool {
        self.inner.wf()
    }

    /// The map as plain values.
    pub open spec fn view_map(&self) -> Map<Seq<char>, Seq<char>> {
        self.inner.view_map().map_values(|v: String| v@)
    }

    /// An empty map.
    pub fn new() -> (r: Self)
        ensures
            r.wf(),
            r.view_map() == Map::<Seq<char>, Seq<char>>::empty(),
    {
        let r = TextMap { inner: NamedMap::new() };
        assert(r.view_map() =~= Map::<Seq<char>, Seq<char>>::empty());
        r
    }

    /// Puts `value` under `key`, replacing the value that was there.
    pub fn insert(&mut self, key: String, value: String)
        requires
            old(self).wf(),
        ensures
            final(self).wf(),
            final(self).view_map() == old(self).view_map().insert(key@, value@),
    {
        let ghost k = key@;
        let ghost v = value@;
        self.inner.insert(key, value);
        assert(self.view_map() =~= old(self).view_map().insert(k, v));
    }

    /// The value under `key`, if any.
    pub fn get(&self, key: &str) -> (r: Option<String>)
        requires
            self.wf(),
        ensures
            r is Some <==> self.view_map().contains_key(key@),
            r matches Some(v) ==> v@ == self.view_map()[key@],
    {
        let k = key.to_owned();
        match self.inner.get(&k) {
            Some(v) => Some(v.clone()),
            None => None,
        }
    }
}

/// Fills the four parts of a strategy description with empty text.
pub fn default_strategy_description(map: TextMap) -> (r: TextMap)
    requires
        map.wf(),
    ensures
        r.wf(),
        r.view_map() == map.view_map().insert("contracts_with_updates"@, Seq::empty()).insert(
            "operations"@,
            Seq::empty(),
        ).insert("start_identities"@, Seq::empty()).insert("identities_inserts"@, Seq::empty()),
{
    let mut map = map;
    map.insert("contracts_with_updates".to_owned(), String::new());
    map.insert("operations".to_owned(), String::new());
    map.insert("start_identities".to_owned(), String::new());
    map.insert("identities_inserts".to_owned(), String::new());
    map
}

/// How often something happens in a strategy: the range of times per block and
/// the chance per block, the latter as the explorer prints it with two decimals.
pub struct FrequencySummary {
    pub times_per_block_start: u16,
    pub times_per_block_end: u16,
    pub chance_per_block: Option<String>,
}

/// The kinds of operations of a strategy.
pub enum OperationKind {
    DocumentInsertRandom,
    DocumentDelete,
    DocumentReplace,
    DocumentInsertSpecific,
    IdentityTopUp,
    IdentityAddKeys(u16),
    IdentityDisableKey(u16),
    IdentityWithdrawal,
    ContractCreate,
    ContractNewDocumentTypes,
    ContractNewOptionalFields,
    IdentityTransfer,
}

/// An operation of a strategy, as its description shows it.
pub struct OperationSummary {
    pub kind: OperationKind,
    pub frequency: FrequencySummary,
}

/// A start contract of a strategy: the name found for it, if any, and, where it
/// has updates, the names found for them.
pub struct ContractSummary {
    pub name: Option<String>,
    pub update_names: Option<Vec<Option<String>>>,
}

/// What the description of a strategy shows of it.
pub struct StrategySummary {
    pub contracts_with_updates: Vec<ContractSummary>,
    pub operations: Vec<OperationSummary>,
    /// The number of start identities and the number of keys of the first one,
    /// where there is one.
    pub start_identities: Option<(u64, u64)>,
    pub identities_inserts: FrequencySummary,
}

/// The text of an operation kind.
pub open spec fn operation_kind_text(k: OperationKind) -> Seq<char> {
    match k {
        OperationKind::DocumentInsertRandom => "DocumentAction::InsertRandom"@,
        OperationKind::DocumentDelete => "DocumentAction::Delete"@,
        OperationKind::DocumentReplace => "DocumentAction::Replace"@,
        OperationKind::DocumentInsertSpecific => "DocumentAction::InsertSpecific"@,
        OperationKind::IdentityTopUp => "IdentityTopUp"@,
        OperationKind::IdentityAddKeys(n) => "IdentityUpdate::AddKeys::"@ + decimal(n as nat),
        OperationKind::IdentityDisableKey(n) => "IdentityUpdate::DisableKey::"@ + decimal(
            n as nat,
        ),
        OperationKind::IdentityWithdrawal => "IdentityWithdrawal"@,
        OperationKind::ContractCreate => "ContractCreate"@,
        OperationKind::ContractNewDocumentTypes => "ContractUpdate::NewDocTypes"@,
        OperationKind::ContractNewOptionalFields => "ContractUpdate::NewFields"@,
        OperationKind::IdentityTransfer => "IdentityTransfer"@,
    }
}

/// The text of a frequency: `TPB=<start>::CPB=<chance or None>`.
pub open spec fn frequency_text(f: FrequencySummary) -> Seq<char> {
    "TPB="@ + decimal(f.times_per_block_start as nat) + "::CPB="@ + match f.chance_per_block {
        Some(c) => c@,
        None => "None"@,
    }
}

/// A name that was found.
pub open spec fn found_name() -> spec_fn(Option<String>) -> bool {
    |n: Option<String>| n is Some
}

/// The text of a found name.
pub open spec fn name_text() -> spec_fn(Option<String>) -> Seq<char> {
    |n: Option<String>| n->0@
}

/// The text of a start contract: its name, or `Unknown`, followed by the names
/// found for its updates, each after `::`.
pub open spec fn contract_text(c: ContractSummary) -> Seq<char> {
    let name = match c.name {
        Some(n) => n@,
        None => "Unknown"@,
    };
    let updates = match c.update_names {
        Some(u) => join(u@.filter(found_name()).map_values(name_text()), "::"@),
        None => Seq::empty(),
    };
    if updates.len() == 0 {
        name
    } else {
        name + "::"@ + updates
    }
}

/// The text of the start identities: their number and the first one's keys.
pub open spec fn start_identities_text(s: Option<(u64, u64)>) -> Seq<char> {
    match s {
        Some((n, k)) => if n > 0 {
            "Identities="@ + decimal(n as nat) + "::Keys="@ + decimal(k as nat)
        } else {
            Seq::empty()
        },
        None => Seq::empty(),
    }
}

/// The text of the identity inserts: their frequency, where any may happen.
pub open spec fn identities_inserts_text(f: FrequencySummary) -> Seq<char> {
    if f.times_per_block_end > 0 {
        frequency_text(f)
    } else {
        Seq::empty()
    }
}

fn push_frequency(out: &mut Vec<char>, f: &FrequencySummary)
    ensures
        final(out)@ == old(out)@ + frequency_text(*f),
{
    push_str(out, "TPB=");
    push_decimal(out, f.times_per_block_start as u64);
    push_str(out, "::CPB=");
    match &f.chance_per_block {
        Some(c) => push_string(out, c),
        None => push_str(out, "None"),
    }
    proof {
        assert(final(out)@ =~= old(out)@ + frequency_text(*f));
    }
}

fn push_operation_kind(out: &mut Vec<char>, k: &OperationKind)
    ensures
        final(out)@ == old(out)@ + operation_kind_text(*k),
{
    match k {
        OperationKind::DocumentInsertRandom => push_str(out, "DocumentAction::InsertRandom"),
        OperationKind::DocumentDelete => push_str(out, "DocumentAction::Delete"),
        OperationKind::DocumentReplace => push_str(out, "DocumentAction::Replace"),
        OperationKind::DocumentInsertSpecific => push_str(out, "DocumentAction::InsertSpecific"),
        OperationKind::IdentityTopUp => push_str(out, "IdentityTopUp"),
        OperationKind::IdentityAddKeys(n) => {
            push_str(out, "IdentityUpdate::AddKeys::");
            push_decimal(out, *n as u64);
            assert(final(out)@ =~= old(out)@ + operation_kind_text(*k));
        },
        OperationKind::IdentityDisableKey(n) => {
            push_str(out, "IdentityUpdate::DisableKey::");
            push_decimal(out, *n as u64);
            assert(final(out)@ =~= old(out)@ + operation_kind_text(*k));
        },
        OperationKind::IdentityWithdrawal => push_str(out, "IdentityWithdrawal"),
        OperationKind::ContractCreate => push_str(out, "ContractCreate"),
        OperationKind::ContractNewDocumentTypes => push_str(out, "ContractUpdate::NewDocTypes"),
        OperationKind::ContractNewOptionalFields => push_str(out, "ContractUpdate::NewFields"),
        OperationKind::IdentityTransfer => push_str(out, "IdentityTransfer"),
    }
}

fn contract_chars(c: &ContractSummary) -> (r: Vec<char>)
    ensures
        r@ == contract_text(*c),
{
    let mut out: Vec<char> = Vec::new();
    match &c.name {
        Some(n) => push_string(&mut out, n),
        None => push_str(&mut out, "Unknown"),
    }
    let mut parts: Vec<Vec<char>> = Vec::new();
    match &c.update_names {
        Some(u) => {
            let ghost f = found_name();
            let ghost g = name_text();
            let mut i: usize = 0;
            while i < u.len()
                invariant
                    f == found_name(),
                    g == name_text(),
                    i <= u@.len(),
                    parts@.map_values(|p: Vec<char>| p@) =~= u@.take(i as int).filter(f).map_values(g),
                decreases u@.len() - i,
            {
                let ghost before = parts@.map_values(|p: Vec<char>| p@);
                proof {
                    assert(u@.take(i + 1) =~= u@.take(i as int).push(u@[i as int]));
                    u@.take(i as int).lemma_filter_push(u@[i as int], f);
                }
                match &u[i] {
                    Some(n) => {
                        parts.push(chars_of(n.as_str()));
                        proof {
                            assert(f(u@[i as int]));
                            assert(u@.take(i + 1).filter(f) == u@.take(i as int).filter(f).push(
                                u@[i as int],
                            ));
                            assert(u@.take(i + 1).filter(f).map_values(g) =~= u@.take(
                                i as int,
                            ).filter(f).map_values(g).push(n@));
                            assert(parts@.map_values(|p: Vec<char>| p@) =~= before.push(n@));
                        }
                    },
                    None => {
                        proof {
                            assert(!f(u@[i as int]));
                            assert(u@.take(i + 1).filter(f) == u@.take(i as int).filter(f));
                        }
                    },
                }
                i = i + 1;
            }
            assert(u@.take(i as int) =~= u@);
        },
        None => {},
    }
    let mut updates: Vec<char> = Vec::new();
    push_joined(&mut updates, &parts, "::");
    assert(updates@ =~= match c.update_names {
        Some(u) => join(u@.filter(found_name()).map_values(name_text()), "::"@),
        None => Seq::empty(),
    });
    if updates.len() > 0 {
        push_str(&mut out, "::");
        let mut j: usize = 0;
        let ghost mid = out@;
        while j < updates.len()
            invariant
                j <= updates@.len(),
                out@ == mid + updates@.take(j as int),
            decreases updates@.len() - j,
        {
            out.push(updates[j]);
            assert(updates@.take(j + 1) =~= updates@.take(j as int).push(updates@[j as int]));
            j = j + 1;
        }
        assert(updates@.take(j as int) =~= updates@);
        assert(out@ =~= contract_text(*c));
    }
    out
}

/// The text of each operation of a strategy: kind and frequency.
pub open spec fn operation_text(o: OperationSummary) -> Seq<char> {
    operation_kind_text(o.kind) + "::"@ + frequency_text(o.frequency)
}

/// The description of a strategy: its start contracts, operations, start
/// identities and identity inserts, each part under its key.
pub open spec fn strategy_description_map(s: StrategySummary) -> Map<Seq<char>, Seq<char>> {
    Map::<Seq<char>, Seq<char>>::empty().insert(
        "contracts_with_updates"@,
        join(
            s.contracts_with_updates@.map_values(|c: ContractSummary| contract_text(c)),
            "; "@,
        ),
    ).insert(
        "operations"@,
        join(s.operations@.map_values(|o: OperationSummary| operation_text(o)), "; "@),
    ).insert("start_identities"@, start_identities_text(s.start_identities)).insert(
        "identities_inserts"@,
        identities_inserts_text(s.identities_inserts),
    )
}

/// Things that can describe themselves as a strategy description.
pub trait Description {
    /// The description, part by part.
    fn strategy_description(&self) -> TextMap;
}

impl Description for StrategySummary {
    fn strategy_description(&self) -> (r: TextMap)
        ensures
            r.wf(),
            r.view_map() == strategy_description_map(*self),
    {
        let mut desc = TextMap::new();
        let mut contract_parts: Vec<Vec<char>> = Vec::new();
        let mut i: usize = 0;
        while i < self.contracts_with_updates.len()
            invariant
                i <= self.contracts_with_updates@.len(),
                contract_parts@.map_values(|p: Vec<char>| p@) =~= self.contracts_with_updates@.take(
                    i as int,
                ).map_values(|c: ContractSummary| contract_text(c)),
            decreases self.contracts_with_updates@.len() - i,
        {
            let ghost before = contract_parts@.map_values(|p: Vec<char>| p@);
            contract_parts.push(contract_chars(&self.contracts_with_updates[i]));
            proof {
                assert(contract_parts@.map_values(|p: Vec<char>| p@) =~= before.push(
                    contract_text(self.contracts_with_updates@[i as int]),
                ));
                assert(self.contracts_with_updates@.take(i + 1) =~= self.contracts_with_updates@.take(
                    i as int,
                ).push(self.contracts_with_updates@[i as int]));
            }
            i = i + 1;
        }
        assert(self.contracts_with_updates@.take(i as int) =~= self.contracts_with_updates@);
        let mut contracts_text: Vec<char> = Vec::new();
        push_joined(&mut contracts_text, &contract_parts, "; ");
        desc.insert("contracts_with_updates".to_owned(), string_from_chars(&contracts_text));

        let mut op_parts: Vec<Vec<char>> = Vec::new();
        let mut j: usize = 0;
        while j < self.operations.len()
            invariant
                j <= self.operations@.len(),
                op_parts@.map_values(|p: Vec<char>| p@) =~= self.operations@.take(
                    j as int,
                ).map_values(|o: OperationSummary| operation_text(o)),
            decreases self.operations@.len() - j,
        {
            let ghost before = op_parts@.map_values(|p: Vec<char>| p@);
            let mut part: Vec<char> = Vec::new();
            push_operation_kind(&mut part, &self.operations[j].kind);
            push_str(&mut part, "::");
            push_frequency(&mut part, &self.operations[j].frequency);
            assert(part@ =~= operation_text(self.operations@[j as int]));
            op_parts.push(part);
            proof {
                assert(op_parts@.map_values(|p: Vec<char>| p@) =~= before.push(
                    operation_text(self.operations@[j as int]),
                ));
                assert(self.operations@.take(j + 1) =~= self.operations@.take(j as int).push(
                    self.operations@[j as int],
                ));
            }
            j = j + 1;
        }
        assert(self.operations@.take(j as int) =~= self.operations@);
        let mut ops_text: Vec<char> = Vec::new();
        push_joined(&mut ops_text, &op_parts, "; ");
        desc.insert("operations".to_owned(), string_from_chars(&ops_text));

        let mut start: Vec<char> = Vec::new();
        match self.start_identities {
            Some((n, k)) => {
                if n > 0 {
                    push_str(&mut start, "Identities=");
                    push_decimal(&mut start, n);
                    push_str(&mut start, "::Keys=");
                    push_decimal(&mut start, k);
                }
            },
            None => {},
        }
        assert(start@ =~= start_identities_text(self.start_identities));
        desc.insert("start_identities".to_owned(), string_from_chars(&start));

        let mut inserts: Vec<char> = Vec::new();
        if self.identities_inserts.times_per_block_end > 0 {
            push_frequency(&mut inserts, &self.identities_inserts);
        }
        assert(inserts@ =~= identities_inserts_text(self.identities_inserts));
        desc.insert("identities_inserts".to_owned(), string_from_chars(&inserts));
        assert(desc.view_map() =~= strategy_description_map(*self));
        desc
    }
}

/// The position of the last `c` in `s`, or -1.
pub open spec fn last_index_of(s: Seq<char>, c: char) -> int
    decreases s.len(),
{
    if s.len() == 0 {
        -1
    } else if s.last() == c {
        s.len() - 1
    } else {
        last_index_of(s.drop_last(), c)
    }
}

/// The name that an imported strategy is kept under: the last segment of its
/// URL, without its extension (the text from the segment's last `.`).
pub open spec fn strategy_name_from_url_spec(url: Seq<char>) -> Seq<char> {
    let segment = url.skip(last_index_of(url, '/') + 1);
    let dot = last_index_of(segment, '.');
    if dot >= 0 {
        segment.take(dot)
    } else {
        segment
    }
}

fn last_index(s: &Vec<char>, c: char) -> (r: i64)
    requires
        s@.len() < i64::MAX,
    ensures
        r == last_index_of(s@, c),
        -1 <= r < s@.len(),
{
    let mut i: usize = s.len();
    assert(s@.take(i as int) =~= s@);
    while i > 0 && s[i - 1] != c
        invariant
            i <= s@.len(),
            s@.len() < i64::MAX,
            last_index_of(s@, c) == last_index_of(s@.take(i as int), c),
        decreases i,
    {
        proof {
            assert(s@.take(i as int).drop_last() =~= s@.take(i - 1));
        }
        i = i - 1;
    }
    proof {
        if i == s@.len() {
            assert(s@.take(i as int) =~= s@);
        }
    }
    if i == 0 {
        assert(s@.take(0).len() == 0);
        -1
    } else {
        (i - 1) as i64
    }
}

/// The name that an imported strategy is kept under, from the URL it was
/// imported from.
pub fn strategy_name_from_url(url: &str) -> (r: String)
    requires
        url@.len() < i64::MAX,
    ensures
        r@ == strategy_name_from_url_spec(url@),
{
    let chars = chars_of(url);
    assert(chars@.take(chars@.len() as int) =~= chars@);
    let slash = last_index(&chars, '/');
    let start = (slash + 1) as usize;
    let mut segment: Vec<char> = Vec::new();
    let mut i: usize = start;
    while i < chars.len()
        invariant
            start <= i <= chars@.len(),
            segment@ =~= chars@.subrange(start as int, i as int),
        decreases chars@.len() - i,
    {
        segment.push(chars[i]);
        i = i + 1;
    }
    assert(segment@ =~= url@.skip(last_index_of(url@, '/') + 1));
    let dot = last_index(&segment, '.');
    if dot >= 0 {
        let mut name: Vec<char> = Vec::new();
        let mut j: usize = 0;
        while j < dot as usize
            invariant
                0 <= dot < segment@.len(),
                j <= dot,
                name@ =~= segment@.take(j as int),
            decreases dot - j,
        {
            name.push(segment[j]);
            j = j + 1;
        }
        string_from_chars(&name)
    } else {
        string_from_chars(&segment)
    }
}

} // verus!
