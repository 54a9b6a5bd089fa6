//! The data contracts that the explorer knows, under their names, and the names
//! that fetched system contracts are kept under.
use vstd::prelude::*;

use crate::text::{
    chars_equal, chars_of, lemma_text_lt_irreflexive, lemma_text_lt_total,
    lemma_text_lt_transitive, text_less, text_lt,
};

verus! {

/// Values under names, in text order of the names.
pub struct NamedMap<V> {
    pub entries: Vec<(String, V)>,
}

impl<V> NamedMap<V> {
    /// The names, in order.
    pub open spec fn names(&self) -> Seq<Seq<char>> {
        self.entries@.map_values(|e: (String, V)| e.0@)
    }

    /// Names are in strictly increasing text order.
    pub open spec fn wf(&self) -> bool {
        forall|a: int, b: int|
            0 <= a < b < self.names().len() ==> text_lt(self.names()[a], self.names()[b])
    }

    /// The map as plain values.
    pub open spec fn view_map(&self) -> Map<Seq<char>, V> {
        Map::new(
            |k: Seq<char>| self.names().contains(k),
            |k: Seq<char>| self.entries@[self.names().index_of(k)].1,
        )
    }

    proof fn lemma_index(&self, i: int)
        requires
            self.wf(),
            0 <= i < self.names().len(),
        ensures
            self.names().index_of(self.names()[i]) == i,
            self.names().contains(self.names()[i]),
    {
        let k = self.names()[i];
        assert(self.names().contains(k));
        let j = self.names().index_of(k);
        if j != i {
            lemma_text_lt_irreflexive(k);
        }
    }

    /// Nothing known.
    pub fn new() -> (r: Self)
        ensures
            r.wf(),
            r.view_map() == Map::<Seq<char>, V>::empty(),
    {
        let r = NamedMap { entries: Vec::new() };
        assert(r.view_map() =~= Map::<Seq<char>, V>::empty());
        r
    }

    /// Where `name` stands or would stand, and whether it is there.
    fn locate(&self, name: &Vec<char>) -> (r: (usize, bool))
        requires
            self.wf(),
        ensures
            r.0 <= self.names().len(),
            forall|q: int| 0 <= q < r.0 ==> text_lt(self.names()[q], name@),
            r.1 <==> (r.0 < self.names().len() && self.names()[r.0 as int] == name@),
            !r.1 ==> (forall|q: int| r.0 <= q < self.names().len() ==> text_lt(name@, self.names()[q])),
            !r.1 ==> !self.names().contains(name@),
    {
        let ghost ks = self.names();
        let mut p: usize = 0;
        while p < self.entries.len() && text_less(&chars_of(self.entries[p].0.as_str()), name)
            invariant
                ks == self.names(),
                p <= ks.len(),
                forall|q: int| 0 <= q < p ==> text_lt(ks[q], name@),
            decreases ks.len() - p,
        {
            assert(ks[p as int] == self.entries@[p as int].0@);
            p = p + 1;
        }
        let found = p < self.entries.len() && chars_equal(&chars_of(self.entries[p].0.as_str()), name);
        proof {
            if p < ks.len() {
                assert(ks[p as int] == self.entries@[p as int].0@);
            }
            if !found {
                if p < ks.len() {
                    lemma_text_lt_total(ks[p as int], name@);
                    assert forall|q: int| p <= q < ks.len() implies text_lt(name@, ks[q]) by {
                        if q > p {
                            lemma_text_lt_transitive(name@, ks[p as int], ks[q]);
                        }
                    }
                }
                if ks.contains(name@) {
                    let q = choose|q: int| 0 <= q < ks.len() && ks[q] == name@;
                    lemma_text_lt_irreflexive(name@);
                    assert(q < p || q >= p);
                }
            }
        }
        (p, found)
    }

    /// The value under `name`, if any.
    pub fn get(&self, name: &String) -> (r: Option<&V>)
        requires
            self.wf(),
        ensures
            r is Some <==> self.view_map().contains_key(name@),
            r matches Some(v) ==> *v == self.view_map()[name@],
    {
        let (p, found) = self.locate(&chars_of(name.as_str()));
        if found {
            proof {
                self.lemma_index(p as int);
            }
            Some(&self.entries[p].1)
        } else {
            None
        }
    }

    /// Puts `value` under `name`, replacing the value that was there.
    pub fn insert(&mut self, name: String, value: V)
        requires
            old(self).wf(),
        ensures
            final(self).wf(),
            final(self).view_map() == old(self).view_map().insert(name@, value),
    {
        let ghost old_self = *self;
        let ghost ks = self.names();
        let (p, found) = self.locate(&chars_of(name.as_str()));
        let ghost key = name@;
        if found {
            self.entries.set(p, (name, value));
            proof {
                let nk = self.names();
                assert(nk =~= ks);
                assert(self.entries@[p as int].1 == value);
                assert forall|k: Seq<char>| #[trigger] self.view_map().contains_key(k)
                    == old_self.view_map().insert(key, value).contains_key(k) by {
                    if k == key {
                        assert(nk[p as int] == k);
                    }
                }
                assert forall|k: Seq<char>| self.view_map().contains_key(k) implies self.view_map()[k]
                    == old_self.view_map().insert(key, value)[k] by {
                    let q = choose|q: int| 0 <= q < nk.len() && nk[q] == k;
                    self.lemma_index(q);
                    old_self.lemma_index(q);
                    self.lemma_index(p as int);
                    if q != p {
                        assert(self.entries@[q] == old_self.entries@[q]);
                    }
                }
                assert(self.view_map() =~= old_self.view_map().insert(key, value));
            }
        } else {
            self.entries.insert(p, (name, value));
            proof {
                let nk = self.names();
                assert(nk =~= ks.insert(p as int, key));
                assert forall|a: int, b: int| 0 <= a < b < nk.len() implies text_lt(nk[a], nk[b]) by {
                    if b < p {
                        assert(nk[a] == ks[a] && nk[b] == ks[b]);
                    } else if b == p {
                        assert(nk[a] == ks[a]);
                    } else if a == p {
                        assert(nk[b] == ks[b - 1]);
                    } else if a < p {
                        assert(nk[a] == ks[a] && nk[b] == ks[b - 1]);
                    } else {
                        assert(nk[a] == ks[a - 1] && nk[b] == ks[b - 1]);
                    }
                }
                assert forall|k: Seq<char>| #[trigger] self.view_map().contains_key(k)
                    == old_self.view_map().insert(key, value).contains_key(k) by {
                    if nk.contains(k) {
                        let q = choose|q: int| 0 <= q < nk.len() && nk[q] == k;
                        if q < p {
                            assert(ks[q] == k);
                        } else if q > p {
                            assert(ks[q - 1] == k);
                        }
                    }
                    if ks.contains(k) {
                        let q = choose|q: int| 0 <= q < ks.len() && ks[q] == k;
                        if q < p {
                            assert(nk[q] == k);
                        } else {
                            assert(nk[q + 1] == k);
                        }
                    }
                    if k == key {
                        assert(nk[p as int] == k);
                    }
                }
                assert forall|k: Seq<char>| self.view_map().contains_key(k) implies self.view_map()[k]
                    == old_self.view_map().insert(key, value)[k] by {
                    let q = nk.index_of(k);
                    self.lemma_index(q);
                    if q < p {
                        assert(ks[q] == k);
                        old_self.lemma_index(q);
                    } else if q > p {
                        assert(ks[q - 1] == k);
                        old_self.lemma_index(q - 1);
                    }
                }
                assert(self.view_map() =~= old_self.view_map().insert(key, value));
            }
        }
    }

    /// Puts `value` under `name` where nothing is there yet.
    pub fn insert_if_absent(&mut self, name: String, value: V)
        requires
            old(self).wf(),
        ensures
            final(self).wf(),
            old(self).view_map().contains_key(name@) ==> final(self).view_map() == old(
                self,
            ).view_map(),
            !old(self).view_map().contains_key(name@) ==> final(self).view_map() == old(
                self,
            ).view_map().insert(name@, value),
    {
        let (_p, found) = self.locate(&chars_of(name.as_str()));
        if !found {
            self.insert(name, value);
        }
    }

    /// Removes what is under `name`, if anything.
    pub fn remove(&mut self, name: &String)
        requires
            old(self).wf(),
        ensures
            final(self).wf(),
            final(self).view_map() == old(self).view_map().remove(name@),
    {
        let ghost old_self = *self;
        let ghost ks = self.names();
        let (p, found) = self.locate(&chars_of(name.as_str()));
        if found {
            let _removed = self.entries.remove(p);
            proof {
                let nk = self.names();
                assert(nk =~= ks.remove(p as int));
                assert forall|a: int, b: int| 0 <= a < b < nk.len() implies text_lt(nk[a], nk[b]) by {
                    if b < p {
                        assert(nk[a] == ks[a] && nk[b] == ks[b]);
                    } else if a < p {
                        assert(nk[a] == ks[a] && nk[b] == ks[b + 1]);
                    } else {
                        assert(nk[a] == ks[a + 1] && nk[b] == ks[b + 1]);
                    }
                }
                old_self.lemma_index(p as int);
                assert forall|k: Seq<char>| #[trigger] self.view_map().contains_key(k)
                    == old_self.view_map().remove(name@).contains_key(k) by {
                    if nk.contains(k) {
                        let q = choose|q: int| 0 <= q < nk.len() && nk[q] == k;
                        if q < p {
                            assert(ks[q] == k);
                            lemma_text_lt_irreflexive(k);
                        } else {
                            assert(ks[q + 1] == k);
                            lemma_text_lt_irreflexive(k);
                        }
                    }
                    if ks.contains(k) && k != name@ {
                        let q = choose|q: int| 0 <= q < ks.len() && ks[q] == k;
                        if q < p {
                            assert(nk[q] == k);
                        } else if q > p {
                            assert(nk[q - 1] == k);
                        }
                    }
                }
                assert forall|k: Seq<char>| self.view_map().contains_key(k) implies self.view_map()[k]
                    == old_self.view_map().remove(name@)[k] by {
                    let q = nk.index_of(k);
                    self.lemma_index(q);
                    if q < p {
                        assert(ks[q] == k);
                        old_self.lemma_index(q);
                    } else {
                        assert(ks[q + 1] == k);
                        old_self.lemma_index(q + 1);
                    }
                }
                assert(self.view_map() =~= old_self.view_map().remove(name@));
            }
        } else {
            assert(self.view_map() =~= old_self.view_map().remove(name@));
        }
    }

    /// Forgets everything.
    pub fn clear(&mut self)
        ensures
            final(self).wf(),
            final(self).view_map() == Map::<Seq<char>, V>::empty(),
    {
        self.entries.clear();
        assert(self.view_map() =~= Map::<Seq<char>, V>::empty());
    }

    /// The names, in text order.
    pub fn names_in_order(&self) -> (r: Vec<String>)
        ensures
            r@.map_values(|s: String| s@) == self.names(),
    {
        let mut r: Vec<String> = Vec::new();
        let mut i: usize = 0;
        while i < self.entries.len()
            invariant
                i <= self.entries@.len(),
                r@.map_values(|s: String| s@) =~= self.names().take(i as int),
            decreases self.entries@.len() - i,
        {
            let ghost before = r@.map_values(|s: String| s@);
            r.push(self.entries[i].0.clone());
            proof {
                assert(r@.map_values(|s: String| s@) =~= before.push(self.entries@[i as int].0@));
                assert(self.names().take(i + 1) =~= self.names().take(i as int).push(
                    self.names()[i as int],
                ));
            }
            i = i + 1;
        }
        assert(self.names().take(i as int) =~= self.names());
        r
    }
}

/// The system contracts that the explorer fetches by their fixed identifiers.
pub enum SystemContract {
    Dashpay,
    Dpns,
    Withdrawals,
}

/// The name a fetched system contract is kept under: the DPNS name found for it
/// where there is one (not for the withdrawals contract), or its own name.
pub open spec fn system_contract_name(contract: SystemContract, dpns_name: Option<Seq<char>>) -> Seq<
    char,
> {
    match contract {
        SystemContract::Dashpay => match dpns_name {
            Some(n) => n,
            None => "Dashpay"@,
        },
        SystemContract::Dpns => match dpns_name {
            Some(n) => n,
            None => "DPNS"@,
        },
        SystemContract::Withdrawals => "Withdrawals"@,
    }
}

/// The name that a fetched system contract is kept under.
pub fn known_contract_name(contract: SystemContract, dpns_name: Option<String>) -> (r: String)
    ensures
        r@ == system_contract_name(
            contract,
            match dpns_name {
                Some(n) => Some(n@),
                None => None,
            },
        ),
{
    match contract {
        SystemContract::Dashpay => match dpns_name {
            Some(n) => n,
            None => "Dashpay".to_owned(),
        },
        SystemContract::Dpns => match dpns_name {
            Some(n) => n,
            None => "DPNS".to_owned(),
        },
        SystemContract::Withdrawals => "Withdrawals".to_owned(),
    }
}

/// Removes the contract known under `name`, if any, and gives the task's answer.
pub fn remove_contract_task<C>(known: &mut NamedMap<C>, name: &String) -> (r: String)
    requires
        old(known).wf(),
    ensures
        final(known).wf(),
        final(known).view_map() == old(known).view_map().remove(name@),
        r@ == "Contract removed"@,
{
    known.remove(name);
    "Contract removed".to_owned()
}

/// Forgets every known contract and gives the task's answer.
pub fn clear_known_contracts_task<C>(known: &mut NamedMap<C>) -> (r: String)
    ensures
        final(known).wf(),
        final(known).view_map() == Map::<Seq<char>, C>::empty(),
        r@ == "Cleared known contracts"@,
{
    known.clear();
    "Cleared known contracts".to_owned()
}

/// Records the result of the fetch of a contract that is kept under `name`: a
/// contract found (with its JSON text) is kept under that name and the answer
/// is its JSON text; where none was found nothing changes and the answer says
/// so; a failed fetch changes nothing and answers with its error.
pub fn fetched_contract_task<C>(
    known: &mut NamedMap<C>,
    name: String,
    fetched: Result<Option<(C, String)>, String>,
) -> (r: Result<String, String>)
    requires
        old(known).wf(),
    ensures
        final(known).wf(),
        match fetched {
            Ok(Some((c, json))) => final(known).view_map() == old(known).view_map().insert(name@, c)
                && (r matches Ok(m) && m@ == json@),
            Ok(None) => final(known).view_map() == old(known).view_map() && (r matches Ok(m) && m@
                == "No contract"@),
            Err(e) => final(known).view_map() == old(known).view_map() && (r matches Err(m) && m@
                == e@),
        },
{
    match fetched {
        Ok(Some((c, json))) => {
            known.insert(name, c);
            Ok(json)
        },
        Ok(None) => Ok("No contract".to_owned()),
        Err(e) => Err(e),
    }
}

} // verus!
