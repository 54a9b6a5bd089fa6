//! The strategies that the explorer keeps by name, which one is selected, and
//! the contract names shown for each.
use vstd::prelude::*;

use crate::text::{
    chars_equal, chars_of, decimal, lemma_text_lt_irreflexive, lemma_text_lt_total,
    lemma_text_lt_transitive, push_decimal, push_str, push_string, string_from_chars, text_less,
    text_lt,
};

verus! {

/// The contracts of one start-contract entry of a strategy, by name: the contract
/// and, where it has them, its updates by order.
pub struct ContractNames {
    /// Name of the contract.
    pub contract: String,
    /// Names of the updates of the contract, each with its order.
    pub updates: Option<Vec<(u64, String)>>,
}

/// A [`ContractNames`] as plain values.
pub open spec fn contract_names_view(c: ContractNames) -> (Seq<char>, Option<Seq<(u64, Seq<char>)>>) {
    (
        c.contract@,
        match c.updates {
            Some(u) => Some(u@.map_values(|e: (u64, String)| (e.0, e.1@))),
            None => None,
        },
    )
}

/// The contract names of a strategy as plain values.
pub open spec fn contract_names_seq(s: Seq<ContractNames>) -> Seq<
    (Seq<char>, Option<Seq<(u64, Seq<char>)>>),
> {
    s.map_values(|c: ContractNames| contract_names_view(c))
}

/// A strategy kept under its name, with its contract names.
pub struct StrategyEntry<S> {
    pub name: String,
    pub strategy: S,
    pub contract_names: Vec<ContractNames>,
}

/// The strategies of the explorer by name, in text order of their names, and the
/// name of the selected one.
pub struct StrategyRegistry<S> {
    pub entries: Vec<StrategyEntry<S>>,
    pub selected: Option<String>,
}

/// The message of a task on a strategy that does not exist.
pub open spec fn missing_strategy_message() -> Seq<char> {
    "Strategy doesn't exist in app state."@
}

/// The message of the tasks that edit a strategy's parts when it does not exist.
pub open spec fn missing_strategy_message_short() -> Seq<char> {
    "Strategy doesn't exist in app state"@
}

/// Copies contract names.
pub fn copy_contract_names(c: &ContractNames) -> (r: ContractNames)
    ensures
        contract_names_view(r) == contract_names_view(*c),
{
    let updates = match &c.updates {
        Some(u) => {
            let mut v: Vec<(u64, String)> = Vec::new();
            let mut i: usize = 0;
            while i < u.len()
                invariant
                    i <= u@.len(),
                    v@.map_values(|e: (u64, String)| (e.0, e.1@)) =~= u@.take(
                        i as int,
                    ).map_values(|e: (u64, String)| (e.0, e.1@)),
                decreases u@.len() - i,
            {
                let ghost before = v@.map_values(|e: (u64, String)| (e.0, e.1@));
                v.push((u[i].0, u[i].1.clone()));
                proof {
                    let e = (u@[i as int].0, u@[i as int].1@);
                    assert(v@.map_values(|e: (u64, String)| (e.0, e.1@)) =~= before.push(e));
                    assert(u@.take(i + 1).map_values(|e: (u64, String)| (e.0, e.1@)) =~= u@.take(
                        i as int,
                    ).map_values(|e: (u64, String)| (e.0, e.1@)).push(e));
                }
                i = i + 1;
            }
            assert(u@.take(i as int) =~= u@);
            Some(v)
        },
        None => None,
    };
    ContractNames { contract: c.contract.clone(), updates }
}

/// Copies a list of contract names.
pub fn copy_contract_names_list(v: &Vec<ContractNames>) -> (r: Vec<ContractNames>)
    ensures
        contract_names_seq(r@) == contract_names_seq(v@),
{
    let mut r: Vec<ContractNames> = Vec::new();
    let mut i: usize = 0;
    while i < v.len()
        invariant
            i <= v@.len(),
            contract_names_seq(r@) =~= contract_names_seq(v@.take(i as int)),
        decreases v@.len() - i,
    {
        let ghost before = contract_names_seq(r@);
        r.push(copy_contract_names(&v[i]));
        proof {
            let e = contract_names_view(v@[i as int]);
            assert(contract_names_seq(r@) =~= before.push(e));
            assert(contract_names_seq(v@.take(i + 1)) =~= contract_names_seq(v@.take(i as int)).push(
                e,
            ));
        }
        i = i + 1;
    }
    assert(v@.take(i as int) =~= v@);
    r
}

/// The contract names that choosing `selected` start contracts adds to a
/// strategy: the first contract with the others as its updates, numbered from 1
/// in the order chosen; nothing where none was chosen.
pub open spec fn start_contract_names(selected: Seq<Seq<char>>) -> Seq<
    (Seq<char>, Option<Seq<(u64, Seq<char>)>>),
> {
    if selected.len() == 0 {
        Seq::empty()
    } else {
        seq![
            (
                selected[0],
                Some(
                    Seq::new(
                        (selected.len() - 1) as nat,
                        |i: int| ((i + 1) as u64, selected[i + 1]),
                    ),
                ),
            ),
        ]
    }
}

/// The name that the `i`-th variant of the contract `name` is kept under among
/// the supporting contracts.
pub open spec fn variant_name(name: Seq<char>, i: nat) -> Seq<char> {
    name + "_variant_"@ + decimal(i)
}

/// The names of the variants made of the contract `name` when a strategy starts
/// with `variants` copies of it: the first copy is the contract itself, each
/// other one a variant.
pub fn variant_names(name: &String, variants: u8) -> (r: Vec<String>)
    requires
        variants >= 1,
    ensures
        r@.len() == variants - 1,
        forall|i: int| 0 <= i < r@.len() ==> #[trigger] r@[i]@ == variant_name(name@, i as nat),
{
    let mut r: Vec<String> = Vec::new();
    let mut i: u8 = 0;
    while i < variants - 1
        invariant
            variants >= 1,
            i <= variants - 1,
            r@.len() == i,
            forall|k: int| 0 <= k < i ==> #[trigger] r@[k]@ == variant_name(name@, k as nat),
        decreases variants - 1 - i,
    {
        let mut text: Vec<char> = Vec::new();
        push_string(&mut text, name);
        push_str(&mut text, "_variant_");
        push_decimal(&mut text, i as u64);
        r.push(string_from_chars(&text));
        i = i + 1;
    }
    r
}

/// The contract names added for start contracts chosen by name.
pub fn start_contract_names_of(selected: &Vec<String>) -> (r: Vec<ContractNames>)
    requires
        selected@.len() <= u64::MAX,
    ensures
        contract_names_seq(r@) == start_contract_names(
            selected@.map_values(|s: String| s@),
        ),
{
    let mut r: Vec<ContractNames> = Vec::new();
    if selected.len() == 0 {
        assert(contract_names_seq(r@) =~= start_contract_names(
            selected@.map_values(|s: String| s@),
        ));
        return r;
    }
    let mut updates: Vec<(u64, String)> = Vec::new();
    let mut i: usize = 1;
    while i < selected.len()
        invariant
            1 <= i <= selected@.len(),
            selected@.len() <= u64::MAX,
            updates@.map_values(|e: (u64, String)| (e.0, e.1@)) =~= Seq::new(
                (i - 1) as nat,
                |k: int| ((k + 1) as u64, selected@[k + 1]@),
            ),
        decreases selected@.len() - i,
    {
        let ghost before = updates@.map_values(|e: (u64, String)| (e.0, e.1@));
        updates.push((i as u64, selected[i].clone()));
        proof {
            assert(updates@.map_values(|e: (u64, String)| (e.0, e.1@)) =~= before.push(
                (i as u64, selected@[i as int]@),
            ));
        }
        i = i + 1;
    }
    let first = selected[0].clone();
    let ghost ups = updates@.map_values(|e: (u64, String)| (e.0, e.1@));
    r.push(ContractNames { contract: first, updates: Some(updates) });
    proof {
        let sel = selected@.map_values(|s: String| s@);
        assert(ups =~= Seq::new(
            (sel.len() - 1) as nat,
            |k: int| ((k + 1) as u64, sel[k + 1]),
        ));
        assert(contract_names_view(r@[0]) == (sel[0], Some(ups)));
        assert(contract_names_seq(r@) =~= start_contract_names(sel));
    }
    r
}

impl<S> StrategyRegistry<S> {
    /// The names of the strategies, in order.
    pub open spec fn names(&self) -> Seq<Seq<char>> {
        self.entries@.map_values(|e: StrategyEntry<S>| e.name@)
    }

    /// Names are in strictly increasing text order, and the selected name, if
    /// any, is a strategy's.
    pub open spec fn wf(&self) -> bool {
        &&& forall|a: int, b: int|
            0 <= a < b < self.names().len() ==> text_lt(self.names()[a], self.names()[b])
        &&& self.selected matches Some(s) ==> self.names().contains(s@)
    }

    /// Whether a strategy is kept under `name`.
    pub open spec fn has(&self, name: Seq<char>) -> bool {
        self.names().contains(name)
    }

    /// Where the strategy `name` stands.
    pub open spec fn position(&self, name: Seq<char>) -> int {
        self.names().index_of(name)
    }

    /// The strategy kept under `name`.
    pub open spec fn strategy_of(&self, name: Seq<char>) -> S {
        self.entries@[self.position(name)].strategy
    }

    /// The contract names of the strategy kept under `name`.
    pub open spec fn contract_names_of(&self, name: Seq<char>) -> Seq<
        (Seq<char>, Option<Seq<(u64, Seq<char>)>>),
    > {
        contract_names_seq(self.entries@[self.position(name)].contract_names@)
    }

    /// The name of the selected strategy, as plain text.
    pub open spec fn selected_name(&self) -> Option<Seq<char>> {
        match self.selected {
            Some(s) => Some(s@),
            None => None,
        }
    }

    /// Entries other than the one named `name` are kept as they were.
    pub open spec fn others_unchanged(&self, old: &Self, name: Seq<char>) -> bool {
        forall|k: Seq<char>|
            k != name ==> (self.has(k) == old.has(k) && (old.has(k) ==> self.strategy_of(k)
                == old.strategy_of(k) && self.contract_names_of(k) == old.contract_names_of(k)))
    }

    /// In a registry in order, a name stands at exactly one place.
    pub proof fn lemma_position(&self, i: int)
        requires
            self.wf(),
            0 <= i < self.names().len(),
        ensures
            self.position(self.names()[i]) == i,
            self.has(self.names()[i]),
    {
        let k = self.names()[i];
        assert(self.names().contains(k));
        let j = self.position(k);
        assert(0 <= j < self.names().len() && self.names()[j] == k);
        if j < i {
            lemma_text_lt_irreflexive(k);
        } else if i < j {
            lemma_text_lt_irreflexive(k);
        }
    }

    /// An empty registry with nothing selected.
    pub fn new() -> (r: Self)
        ensures
            r.wf(),
            r.names().len() == 0,
            r.selected is None,
    {
        StrategyRegistry { entries: Vec::new(), selected: None }
    }

    /// Where the strategy `name` stands, or where it would be inserted, and
    /// whether it is there.
    fn locate(&self, name: &Vec<char>) -> (r: (usize, bool))
        requires
            self.wf(),
        ensures
            r.0 <= self.names().len(),
            forall|q: int| 0 <= q < r.0 ==> text_lt(self.names()[q], name@),
            r.1 ==> r.0 < self.names().len() && self.names()[r.0 as int] == name@,
            !r.1 ==> forall|q: int|
                r.0 <= q < self.names().len() ==> text_lt(name@, self.names()[q]),
            r.1 <==> self.has(name@),
    {
        let mut p: usize = 0;
        while p < self.entries.len() && text_less(&chars_of(self.entries[p].name.as_str()), name)
            invariant
                p <= self.names().len(),
                forall|q: int| 0 <= q < p ==> text_lt(self.names()[q], name@),
            decreases self.names().len() - p,
        {
            p = p + 1;
        }
        let found = p < self.entries.len() && chars_equal(
            &chars_of(self.entries[p].name.as_str()),
            name,
        );
        proof {
            let ns = self.names();
            if !found {
                if p < ns.len() {
                    assert(!text_lt(ns[p as int], name@));
                    assert(ns[p as int] != name@);
                    lemma_text_lt_total(ns[p as int], name@);
                    assert forall|q: int| p <= q < ns.len() implies text_lt(name@, ns[q]) by {
                        if q > p {
                            lemma_text_lt_transitive(name@, ns[p as int], ns[q]);
                        }
                    }
                }
                if ns.contains(name@) {
                    let q = choose|q: int| 0 <= q < ns.len() && ns[q] == name@;
                    lemma_text_lt_irreflexive(name@);
                    assert(false);
                }
            } else {
                assert(ns[p as int] == name@);
                assert(ns.contains(name@));
            }
        }
        (p, found)
    }

    /// Whether a strategy is kept under `name`.
    pub fn contains(&self, name: &String) -> (r: bool)
        requires
            self.wf(),
        ensures
            r == self.has(name@),
    {
        let (_, found) = self.locate(&chars_of(name.as_str()));
        found
    }

    /// The strategy kept under `name`, if any.
    pub fn strategy(&self, name: &String) -> (r: Option<&S>)
        requires
            self.wf(),
        ensures
            r is Some <==> self.has(name@),
            r matches Some(s) ==> *s == self.strategy_of(name@),
    {
        let (p, found) = self.locate(&chars_of(name.as_str()));
        if found {
            proof {
                self.lemma_position(p as int);
            }
            Some(&self.entries[p].strategy)
        } else {
            None
        }
    }

    /// The contract names of the strategy kept under `name`, if any.
    pub fn contract_names(&self, name: &String) -> (r: Option<&Vec<ContractNames>>)
        requires
            self.wf(),
        ensures
            r is Some <==> self.has(name@),
            r matches Some(c) ==> contract_names_seq(c@) == self.contract_names_of(name@),
    {
        let (p, found) = self.locate(&chars_of(name.as_str()));
        if found {
            proof {
                self.lemma_position(p as int);
            }
            Some(&self.entries[p].contract_names)
        } else {
            None
        }
    }

    /// The names of the strategies, in order.
    pub fn strategy_names(&self) -> (r: Vec<String>)
        ensures
            r@.map_values(|s: String| s@) == self.names(),
    {
        let mut r: Vec<String> = Vec::new();
        let mut i: usize = 0;
        while i < self.entries.len()
            invariant
                i <= self.names().len(),
                r@.map_values(|s: String| s@) =~= self.names().take(i as int),
            decreases self.names().len() - i,
        {
            r.push(self.entries[i].name.clone());
            proof {
                assert(self.names().take(i + 1) =~= self.names().take(i as int).push(
                    self.names()[i as int],
                ));
            }
            i = i + 1;
        }
        assert(self.names().take(i as int) =~= self.names());
        r
    }

    /// The name of the strategy at `index` in name order, or the empty name
    /// where there is none.
    pub fn name_at(&self, index: usize) -> (r: String)
        ensures
            index < self.names().len() ==> r@ == self.names()[index as int],
            index >= self.names().len() ==> r@ == Seq::<char>::empty(),
    {
        if index < self.entries.len() {
            self.entries[index].name.clone()
        } else {
            String::new()
        }
    }

    /// Puts `entry` under its name: replaces the strategy of that name, or
    /// inserts it at its place in name order.
    fn put(&mut self, entry: StrategyEntry<S>)
        requires
            old(self).wf(),
        ensures
            final(self).wf(),
            final(self).selected == old(self).selected,
            final(self).has(entry.name@),
            final(self).strategy_of(entry.name@) == entry.strategy,
            final(self).contract_names_of(entry.name@) == contract_names_seq(
                entry.contract_names@,
            ),
            final(self).others_unchanged(old(self), entry.name@),
    {
        let ghost name = entry.name@;
        let ghost old_self = *self;
        let (p, found) = self.locate(&chars_of(entry.name.as_str()));
        let ghost ns = self.names();
        if found {
            self.entries.set(p, entry);
            proof {
                assert(self.names() =~= ns);
                self.lemma_position(p as int);
                assert forall|k: Seq<char>|
                    k != name implies (self.has(k) == old_self.has(k) && (old_self.has(k)
                    ==> self.strategy_of(k) == old_self.strategy_of(k) && self.contract_names_of(
                    k) == old_self.contract_names_of(k))) by {
                    if old_self.has(k) {
                        let q = old_self.position(k);
                        old_self.lemma_position(q);
                        self.lemma_position(q);
                    }
                }
            }
        } else {
            self.entries.insert(p, entry);
            proof {
                let nn = self.names();
                assert(nn =~= ns.insert(p as int, name));
                assert forall|a: int, b: int| 0 <= a < b < nn.len() implies text_lt(
                    nn[a],
                    nn[b],
                ) by {
                    if b < p {
                        assert(nn[a] == ns[a] && nn[b] == ns[b]);
                    } else if b == p {
                        assert(nn[a] == ns[a]);
                    } else if a == p {
                        assert(nn[b] == ns[b - 1]);
                    } else if a < p {
                        assert(nn[a] == ns[a] && nn[b] == ns[b - 1]);
                    } else {
                        assert(nn[a] == ns[a - 1] && nn[b] == ns[b - 1]);
                    }
                }
                assert(self.selected matches Some(s) ==> nn.contains(s@)) by {
                    if self.selected is Some {
                        let s = self.selected->0;
                        let q = choose|q: int| 0 <= q < ns.len() && ns[q] == s@;
                        if q < p {
                            assert(nn[q] == s@);
                        } else {
                            assert(nn[q + 1] == s@);
                        }
                    }
                }
                self.lemma_position(p as int);
                assert forall|k: Seq<char>|
                    k != name implies (self.has(k) == old_self.has(k) && (old_self.has(k)
                    ==> self.strategy_of(k) == old_self.strategy_of(k) && self.contract_names_of(
                    k) == old_self.contract_names_of(k))) by {
                    if old_self.has(k) {
                        let q = old_self.position(k);
                        old_self.lemma_position(q);
                        if q < p {
                            assert(nn[q] == k);
                            self.lemma_position(q);
                        } else {
                            assert(nn[q + 1] == k);
                            self.lemma_position(q + 1);
                        }
                    }
                    if self.has(k) {
                        let q = self.position(k);
                        self.lemma_position(q);
                        if q < p {
                            assert(ns[q] == k);
                        } else if q > p {
                            assert(ns[q - 1] == k);
                        }
                    }
                }
            }
        }
    }

    /// Creates the strategy `name` with no contract names and selects it; a
    /// strategy of that name is replaced.
    pub fn create_strategy(&mut self, name: String, strategy: S)
        requires
            old(self).wf(),
        ensures
            final(self).wf(),
            final(self).has(name@),
            final(self).strategy_of(name@) == strategy,
            final(self).contract_names_of(name@) == Seq::<
                (Seq<char>, Option<Seq<(u64, Seq<char>)>>),
            >::empty(),
            final(self).selected_name() == Some(name@),
            final(self).others_unchanged(old(self), name@),
    {
        let selected = name.clone();
        self.put(StrategyEntry { name, strategy, contract_names: Vec::new() });
        self.selected = Some(selected);
        proof {
            assert(contract_names_seq(Seq::<ContractNames>::empty()) =~= Seq::<
                (Seq<char>, Option<Seq<(u64, Seq<char>)>>),
            >::empty());
        }
    }

    /// Keeps an imported strategy under `name` with its contract names and selects
    /// it; a strategy of that name is replaced.
    pub fn import_strategy(&mut self, name: String, strategy: S, contract_names: Vec<ContractNames>)
        requires
            old(self).wf(),
        ensures
            final(self).wf(),
            final(self).has(name@),
            final(self).strategy_of(name@) == strategy,
            final(self).contract_names_of(name@) == contract_names_seq(contract_names@),
            final(self).selected_name() == Some(name@),
            final(self).others_unchanged(old(self), name@),
    {
        let selected = name.clone();
        self.put(StrategyEntry { name, strategy, contract_names });
        self.selected = Some(selected);
    }

    /// Replaces the strategy kept under `name`, keeping its contract names.
    pub fn set_strategy(&mut self, name: &String, strategy: S) -> (r: Result<(), String>)
        requires
            old(self).wf(),
        ensures
            final(self).wf(),
            final(self).selected == old(self).selected,
            r is Ok <==> old(self).has(name@),
            r matches Err(m) ==> m@ == missing_strategy_message(),
            r is Ok ==> final(self).strategy_of(name@) == strategy && final(self).contract_names_of(
                name@,
            ) == old(self).contract_names_of(name@) && final(self).others_unchanged(
                old(self),
                name@,
            ),
            r is Err ==> *final(self) == *old(self),
    {
        let (p, found) = self.locate(&chars_of(name.as_str()));
        if !found {
            return Err("Strategy doesn't exist in app state.".to_owned());
        }
        let ghost old_self = *self;
        proof {
            self.lemma_position(p as int);
        }
        let old_entry = self.entries.remove(p);
        let entry = StrategyEntry {
            name: old_entry.name,
            strategy,
            contract_names: old_entry.contract_names,
        };
        self.entries.insert(p, entry);
        proof {
            assert(self.names() =~= old_self.names());
            self.lemma_position(p as int);
            assert forall|k: Seq<char>|
                k != name@ implies (self.has(k) == old_self.has(k) && (old_self.has(k)
                ==> self.strategy_of(k) == old_self.strategy_of(k) && self.contract_names_of(k)
                == old_self.contract_names_of(k))) by {
                if old_self.has(k) {
                    let q = old_self.position(k);
                    old_self.lemma_position(q);
                    self.lemma_position(q);
                }
            }
        }
        Ok(())
    }

    /// Selects the strategy `name`, which must exist.
    pub fn select_strategy(&mut self, name: &String) -> (r: Result<(), String>)
        requires
            old(self).wf(),
        ensures
            final(self).wf(),
            final(self).entries == old(self).entries,
            r is Ok <==> old(self).has(name@),
            r is Ok ==> final(self).selected_name() == Some(name@),
            r matches Err(m) ==> m@ == missing_strategy_message() && final(self).selected
                == old(self).selected,
    {
        if self.contains(name) {
            self.selected = Some(name.clone());
            Ok(())
        } else {
            Err("Strategy doesn't exist in app state.".to_owned())
        }
    }

    /// Deletes the strategy at `index` in name order, the one the list of
    /// strategies shows there; where it was selected, nothing is selected
    /// afterwards. An index past the list changes nothing.
    pub fn delete_strategy_at(&mut self, index: usize)
        requires
            old(self).wf(),
        ensures
            final(self).wf(),
            index >= old(self).names().len() ==> *final(self) == *old(self),
            index < old(self).names().len() ==> {
                let name = old(self).names()[index as int];
                &&& !final(self).has(name)
                &&& final(self).others_unchanged(old(self), name)
                &&& final(self).selected_name() == if old(self).selected_name() == Some(name) {
                    None
                } else {
                    old(self).selected_name()
                }
            },
    {
        if index < self.entries.len() {
            let name = self.name_at(index);
            proof {
                self.lemma_position(index as int);
            }
            let _ = self.delete_strategy(&name);
        }
    }

    /// Takes the strategy `name` out, with its contract names, where it exists;
    /// where it was selected, nothing is selected afterwards.
    fn take_strategy(&mut self, name: &String) -> (r: Option<StrategyEntry<S>>)
        requires
            old(self).wf(),
        ensures
            final(self).wf(),
            r is Some <==> old(self).has(name@),
            r is None ==> *final(self) == *old(self),
            r matches Some(e) ==> {
                &&& e.strategy == old(self).strategy_of(name@)
                &&& contract_names_seq(e.contract_names@) == old(self).contract_names_of(name@)
                &&& !final(self).has(name@)
                &&& final(self).others_unchanged(old(self), name@)
                &&& final(self).selected_name() == if old(self).selected_name() == Some(name@) {
                    None
                } else {
                    old(self).selected_name()
                }
            },
    {
        let ghost old_self = *self;
        let (p, found) = self.locate(&chars_of(name.as_str()));
        if !found {
            return None;
        }
        let ghost ns = self.names();
        let removed = self.entries.remove(p);
        let clear = match &self.selected {
            Some(s) => *s == *name,
            None => false,
        };
        if clear {
            self.selected = None;
        }
        proof {
            let nn = self.names();
            assert(nn =~= ns.remove(p as int));
            old_self.lemma_position(p as int);
            assert forall|a: int, b: int| 0 <= a < b < nn.len() implies text_lt(nn[a], nn[b]) by {
                if b < p {
                    assert(nn[a] == ns[a] && nn[b] == ns[b]);
                } else if a < p {
                    assert(nn[a] == ns[a] && nn[b] == ns[b + 1]);
                } else {
                    assert(nn[a] == ns[a + 1] && nn[b] == ns[b + 1]);
                }
            }
            if nn.contains(name@) {
                let q = choose|q: int| 0 <= q < nn.len() && nn[q] == name@;
                if q < p {
                    assert(ns[q] == name@);
                    old_self.lemma_position(q);
                } else {
                    assert(ns[q + 1] == name@);
                    old_self.lemma_position(q + 1);
                }
            }
            if self.selected is Some {
                let s = self.selected->0;
                let q = choose|q: int| 0 <= q < ns.len() && ns[q] == s@;
                assert(s@ != name@);
                if q < p {
                    assert(nn[q] == s@);
                } else {
                    assert(q != p);
                    assert(nn[q - 1] == s@);
                }
            }
            assert forall|k: Seq<char>|
                k != name@ implies (self.has(k) == old_self.has(k) && (old_self.has(k)
                ==> self.strategy_of(k) == old_self.strategy_of(k) && self.contract_names_of(k)
                == old_self.contract_names_of(k))) by {
                if old_self.has(k) {
                    let q = old_self.position(k);
                    old_self.lemma_position(q);
                    if q < p {
                        assert(nn[q] == k);
                        self.lemma_position(q);
                    } else {
                        assert(nn[q - 1] == k);
                        self.lemma_position(q - 1);
                    }
                }
                if self.has(k) {
                    let q = self.position(k);
                    self.lemma_position(q);
                    if q < p {
                        assert(ns[q] == k);
                    } else {
                        assert(ns[q + 1] == k);
                    }
                }
            }
        }
        Some(removed)
    }

    /// Deletes the strategy `name`, which must exist; where it was selected,
    /// nothing is selected afterwards.
    pub fn delete_strategy(&mut self, name: &String) -> (r: Result<(), String>)
        requires
            old(self).wf(),
        ensures
            final(self).wf(),
            r is Ok <==> old(self).has(name@),
            r matches Err(m) ==> m@ == missing_strategy_message() && *final(self) == *old(self),
            r is Ok ==> {
                &&& !final(self).has(name@)
                &&& final(self).others_unchanged(old(self), name@)
                &&& final(self).selected_name() == if old(self).selected_name() == Some(name@) {
                    None
                } else {
                    old(self).selected_name()
                }
            },
    {
        match self.take_strategy(name) {
            Some(_) => Ok(()),
            None => Err("Strategy doesn't exist in app state.".to_owned()),
        }
    }

    /// Renames the strategy `old_name`, which must exist, to `new_name`: it
    /// keeps its strategy and contract names under the new name (replacing a
    /// strategy of that name), no longer has the old one, and is the current
    /// strategy afterwards.
    pub fn rename_strategy(&mut self, old_name: &String, new_name: String) -> (r: Result<(), String>)
        requires
            old(self).wf(),
        ensures
            final(self).wf(),
            r is Ok <==> old(self).has(old_name@),
            r matches Err(m) ==> m@ == missing_strategy_message() && *final(self) == *old(self),
            r is Ok ==> {
                &&& final(self).has(new_name@)
                &&& final(self).strategy_of(new_name@) == old(self).strategy_of(old_name@)
                &&& final(self).contract_names_of(new_name@) == old(self).contract_names_of(
                    old_name@,
                )
                &&& old_name@ != new_name@ ==> !final(self).has(old_name@)
                &&& forall|k: Seq<char>|
                    k != old_name@ && k != new_name@ ==> (final(self).has(k) == old(self).has(k)
                        && (old(self).has(k) ==> final(self).strategy_of(k) == old(
                        self,
                    ).strategy_of(k) && final(self).contract_names_of(k) == old(
                        self,
                    ).contract_names_of(k)))
                &&& final(self).selected_name() == Some(new_name@)
            },
    {
        match self.take_strategy(old_name) {
            None => Err("Strategy doesn't exist in app state.".to_owned()),
            Some(e) => {
                let selected_name = new_name.clone();
                let entry = StrategyEntry {
                    name: new_name,
                    strategy: e.strategy,
                    contract_names: e.contract_names,
                };
                self.put(entry);
                proof {
                    assert(self.has(selected_name@));
                }
                self.selected = Some(selected_name);
                Ok(())
            },
        }
    }

    /// Adds to the contract names of strategy `name` those of the start contracts
    /// chosen by name: the first contract with the others as its updates.
    pub fn add_start_contract_names(&mut self, name: &String, selected: &Vec<String>) -> (r: Result<
        (),
        String,
    >)
        requires
            old(self).wf(),
            selected@.len() <= u64::MAX,
        ensures
            final(self).wf(),
            final(self).selected == old(self).selected,
            r is Ok <==> old(self).has(name@),
            r matches Err(m) ==> m@ == missing_strategy_message() && *final(self) == *old(self),
            r is Ok ==> {
                &&& final(self).has(name@)
                &&& final(self).strategy_of(name@) == old(self).strategy_of(name@)
                &&& final(self).contract_names_of(name@) == old(self).contract_names_of(name@)
                    + start_contract_names(selected@.map_values(|s: String| s@))
                &&& final(self).others_unchanged(old(self), name@)
            },
    {
        let added = start_contract_names_of(selected);
        self.extend_contract_names(name, added, "Strategy doesn't exist in app state.")
    }

    /// Adds to the contract names of strategy `name` one entry, without updates,
    /// for each contract variant id.
    pub fn add_contract_variant_names(&mut self, name: &String, ids: &Vec<String>) -> (r: Result<
        (),
        String,
    >)
        requires
            old(self).wf(),
        ensures
            final(self).wf(),
            final(self).selected == old(self).selected,
            r is Ok <==> old(self).has(name@),
            r matches Err(m) ==> m@ == missing_strategy_message() && *final(self) == *old(self),
            r is Ok ==> {
                &&& final(self).has(name@)
                &&& final(self).strategy_of(name@) == old(self).strategy_of(name@)
                &&& final(self).contract_names_of(name@) == old(self).contract_names_of(name@)
                    + ids@.map_values(
                    |s: String| (s@, None::<Seq<(u64, Seq<char>)>>),
                )
                &&& final(self).others_unchanged(old(self), name@)
            },
    {
        let mut added: Vec<ContractNames> = Vec::new();
        let mut i: usize = 0;
        while i < ids.len()
            invariant
                i <= ids@.len(),
                contract_names_seq(added@) =~= ids@.take(i as int).map_values(
                    |s: String| (s@, None::<Seq<(u64, Seq<char>)>>),
                ),
            decreases ids@.len() - i,
        {
            let ghost before = contract_names_seq(added@);
            added.push(ContractNames { contract: ids[i].clone(), updates: None });
            proof {
                let e = (ids@[i as int]@, None::<Seq<(u64, Seq<char>)>>);
                assert(contract_names_seq(added@) =~= before.push(e));
                assert(ids@.take(i + 1).map_values(
                    |s: String| (s@, None::<Seq<(u64, Seq<char>)>>),
                ) =~= ids@.take(i as int).map_values(
                    |s: String| (s@, None::<Seq<(u64, Seq<char>)>>),
                ).push(e));
            }
            i = i + 1;
        }
        assert(ids@.take(i as int) =~= ids@);
        self.extend_contract_names(name, added, "Strategy doesn't exist in app state.")
    }

    fn extend_contract_names(&mut self, name: &String, added: Vec<ContractNames>, missing: &str) -> (r:
        Result<(), String>)
        requires
            old(self).wf(),
        ensures
            final(self).wf(),
            final(self).selected == old(self).selected,
            r is Ok <==> old(self).has(name@),
            r matches Err(m) ==> m@ == missing@ && *final(self) == *old(self),
            r is Ok ==> {
                &&& final(self).has(name@)
                &&& final(self).strategy_of(name@) == old(self).strategy_of(name@)
                &&& final(self).contract_names_of(name@) == old(self).contract_names_of(name@)
                    + contract_names_seq(added@)
                &&& final(self).others_unchanged(old(self), name@)
            },
    {
        let ghost old_self = *self;
        let (p, found) = self.locate(&chars_of(name.as_str()));
        if !found {
            return Err(missing.to_owned());
        }
        proof {
            self.lemma_position(p as int);
        }
        let ghost before = contract_names_seq(self.entries@[p as int].contract_names@);
        let mut entry = self.entries.remove(p);
        let mut more = added;
        entry.contract_names.append(&mut more);
        proof {
            assert(contract_names_seq(entry.contract_names@) =~= before + contract_names_seq(
                added@,
            ));
        }
        self.entries.insert(p, entry);
        proof {
            assert(self.names() =~= old_self.names());
            self.lemma_position(p as int);
            assert forall|k: Seq<char>|
                k != name@ implies (self.has(k) == old_self.has(k) && (old_self.has(k)
                ==> self.strategy_of(k) == old_self.strategy_of(k) && self.contract_names_of(k)
                == old_self.contract_names_of(k))) by {
                if old_self.has(k) {
                    let q = old_self.position(k);
                    old_self.lemma_position(q);
                    self.lemma_position(q);
                }
            }
        }
        Ok(())
    }

    fn edit_contract_names(&mut self, name: &String, clear: bool) -> (r: Result<(), String>)
        requires
            old(self).wf(),
        ensures
            final(self).wf(),
            final(self).selected == old(self).selected,
            r is Ok <==> old(self).has(name@),
            r matches Err(m) ==> m@ == missing_strategy_message_short() && *final(self) == *old(
                self,
            ),
            r is Ok ==> {
                &&& final(self).has(name@)
                &&& final(self).strategy_of(name@) == old(self).strategy_of(name@)
                &&& final(self).contract_names_of(name@) == if clear {
                    Seq::empty()
                } else {
                    old(self).contract_names_of(name@).take(
                        if old(self).contract_names_of(name@).len() == 0 {
                            0
                        } else {
                            old(self).contract_names_of(name@).len() - 1
                        },
                    )
                }
                &&& final(self).others_unchanged(old(self), name@)
            },
    {
        let ghost old_self = *self;
        let (p, found) = self.locate(&chars_of(name.as_str()));
        if !found {
            return Err("Strategy doesn't exist in app state".to_owned());
        }
        proof {
            self.lemma_position(p as int);
        }
        let ghost before = contract_names_seq(self.entries@[p as int].contract_names@);
        let mut entry = self.entries.remove(p);
        if clear {
            entry.contract_names.clear();
        } else if entry.contract_names.len() > 0 {
            let _last = entry.contract_names.pop();
        }
        proof {
            if clear {
                assert(contract_names_seq(entry.contract_names@) =~= Seq::empty());
            } else if before.len() == 0 {
                assert(contract_names_seq(entry.contract_names@) =~= before.take(0));
            } else {
                assert(contract_names_seq(entry.contract_names@) =~= before.take(before.len() - 1));
            }
        }
        self.entries.insert(p, entry);
        proof {
            assert(self.names() =~= old_self.names());
            self.lemma_position(p as int);
            assert forall|k: Seq<char>|
                k != name@ implies (self.has(k) == old_self.has(k) && (old_self.has(k)
                ==> self.strategy_of(k) == old_self.strategy_of(k) && self.contract_names_of(k)
                == old_self.contract_names_of(k))) by {
                if old_self.has(k) {
                    let q = old_self.position(k);
                    old_self.lemma_position(q);
                    self.lemma_position(q);
                }
            }
        }
        Ok(())
    }

    /// Drops the last contract names of strategy `name`, if it has any.
    pub fn remove_last_contract_names(&mut self, name: &String) -> (r: Result<(), String>)
        requires
            old(self).wf(),
        ensures
            final(self).wf(),
            final(self).selected == old(self).selected,
            r is Ok <==> old(self).has(name@),
            r matches Err(m) ==> m@ == missing_strategy_message_short() && *final(self) == *old(
                self,
            ),
            r is Ok ==> {
                &&& final(self).has(name@)
                &&& final(self).strategy_of(name@) == old(self).strategy_of(name@)
                &&& final(self).contract_names_of(name@) == old(self).contract_names_of(
                    name@,
                ).take(
                    if old(self).contract_names_of(name@).len() == 0 {
                        0
                    } else {
                        old(self).contract_names_of(name@).len() - 1
                    },
                )
                &&& final(self).others_unchanged(old(self), name@)
            },
    {
        self.edit_contract_names(name, false)
    }

    /// Drops all contract names of strategy `name`.
    pub fn clear_contract_names(&mut self, name: &String) -> (r: Result<(), String>)
        requires
            old(self).wf(),
        ensures
            final(self).wf(),
            final(self).selected == old(self).selected,
            r is Ok <==> old(self).has(name@),
            r matches Err(m) ==> m@ == missing_strategy_message_short() && *final(self) == *old(
                self,
            ),
            r is Ok ==> {
                &&& final(self).has(name@)
                &&& final(self).strategy_of(name@) == old(self).strategy_of(name@)
                &&& final(self).contract_names_of(name@) == Seq::<
                    (Seq<char>, Option<Seq<(u64, Seq<char>)>>),
                >::empty()
                &&& final(self).others_unchanged(old(self), name@)
            },
    {
        self.edit_contract_names(name, true)
    }
}

impl<S: Clone> StrategyRegistry<S> {
    /// Copies the selected strategy, with its contract names, under `new_name`
    /// and selects the copy. Fails where nothing is selected.
    pub fn clone_selected_strategy(&mut self, new_name: String) -> (r: Result<(), String>)
        requires
            old(self).wf(),
        ensures
            final(self).wf(),
            r is Ok <==> old(self).selected is Some,
            r matches Err(m) ==> m@ == "No selected strategy in app state."@ && *final(self)
                == *old(self),
            r is Ok ==> {
                let sel = old(self).selected_name()->0;
                &&& final(self).has(new_name@)
                &&& cloned(old(self).strategy_of(sel), final(self).strategy_of(new_name@))
                &&& final(self).contract_names_of(new_name@) == old(self).contract_names_of(sel)
                &&& final(self).selected_name() == Some(new_name@)
                &&& final(self).others_unchanged(old(self), new_name@)
            },
    {
        let selected = match &self.selected {
            Some(s) => s.clone(),
            None => {
                return Err("No selected strategy in app state.".to_owned());
            },
        };
        let (p, found) = self.locate(&chars_of(selected.as_str()));
        proof {
            assert(found);
            self.lemma_position(p as int);
        }
        let strategy = self.entries[p].strategy.clone();
        let contract_names = copy_contract_names_list(&self.entries[p].contract_names);
        let selected_new = new_name.clone();
        self.put(StrategyEntry { name: new_name, strategy, contract_names });
        self.selected = Some(selected_new);
        Ok(())
    }
}

/// The kinds of operation that the menu of a strategy's operations offers, in
/// its order.
pub enum OperationChoice {
    /// Ask for the document operation.
    Document,
    /// Add an identity top up.
    IdentityTopUp,
    /// Ask for the identity update.
    IdentityUpdate,
    /// Add an identity withdrawal.
    IdentityWithdrawal,
    /// Add a contract creation.
    ContractCreate,
    /// Ask for the contract update.
    ContractUpdate,
    /// Add an identity transfer.
    IdentityTransfer,
}

/// The operation kind at `index` in the menu; none past its seven entries.
pub fn operation_choice(index: usize) -> (r: Option<OperationChoice>)
    ensures
        index == 0 ==> r matches Some(OperationChoice::Document),
        index == 1 ==> r matches Some(OperationChoice::IdentityTopUp),
        index == 2 ==> r matches Some(OperationChoice::IdentityUpdate),
        index == 3 ==> r matches Some(OperationChoice::IdentityWithdrawal),
        index == 4 ==> r matches Some(OperationChoice::ContractCreate),
        index == 5 ==> r matches Some(OperationChoice::ContractUpdate),
        index == 6 ==> r matches Some(OperationChoice::IdentityTransfer),
        index >= 7 ==> r is None,
{
    match index {
        0 => Some(OperationChoice::Document),
        1 => Some(OperationChoice::IdentityTopUp),
        2 => Some(OperationChoice::IdentityUpdate),
        3 => Some(OperationChoice::IdentityWithdrawal),
        4 => Some(OperationChoice::ContractCreate),
        5 => Some(OperationChoice::ContractUpdate),
        6 => Some(OperationChoice::IdentityTransfer),
        _ => None,
    }
}

} // verus!
