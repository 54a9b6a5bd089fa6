//! A pool of node addresses handed out in turn, and the comma-separated list
//! that it is configured from.
use vstd::prelude::*;

use crate::text::string_from_chars;

verus! {

/// The pieces of text between the separators `sep`, in order; text without a
/// separator is one piece, and empty text is one empty piece.
pub open spec fn split_on(text: Seq<char>, sep: char) -> Seq<Seq<char>>
    decreases text.len(),
{
    if text.len() == 0 {
        seq![Seq::empty()]
    } else {
        let rest = split_on(text.drop_last(), sep);
        if text.last() == sep {
            rest.push(Seq::empty())
        } else {
            rest.update(rest.len() - 1, rest.last().push(text.last()))
        }
    }
}

proof fn lemma_split_nonempty(text: Seq<char>, sep: char)
    ensures
        split_on(text, sep).len() >= 1,
    decreases text.len(),
{
    if text.len() > 0 {
        lemma_split_nonempty(text.drop_last(), sep);
    }
}

/// The addresses of a comma-separated list, as `str::split(',')` cuts it.
pub fn split_address_list(list: &str) -> (r: Vec<String>)
    ensures
        r@.map_values(|s: String| s@) == split_on(list@, ','),
{
    let n = list.unicode_len();
    let mut pieces: Vec<String> = Vec::new();
    let mut current: Vec<char> = Vec::new();
    let mut i: usize = 0;
    while i < n
        invariant
            n == list@.len(),
            i <= n,
            pieces@.map_values(|s: String| s@).push(current@) == split_on(list@.take(i as int), ','),
        decreases n - i,
    {
        let c = list.get_char(i);
        proof {
            let t = list@.take(i + 1);
            assert(t.drop_last() =~= list@.take(i as int));
            assert(t.last() == c);
            lemma_split_nonempty(list@.take(i as int), ',');
        }
        let ghost before = pieces@.map_values(|s: String| s@);
        if c == ',' {
            let piece = string_from_chars(&current);
            pieces.push(piece);
            current = Vec::new();
            proof {
                assert(pieces@.map_values(|s: String| s@) =~= before.push(piece@));
                assert(pieces@.map_values(|s: String| s@).push(current@) =~= before.push(
                    piece@,
                ).push(Seq::empty()));
            }
        } else {
            let ghost old_current = current@;
            current.push(c);
            proof {
                let prev = before.push(old_current);
                assert(prev.update(prev.len() - 1, prev.last().push(c)) =~= before.push(
                    current@,
                ));
            }
        }
        i = i + 1;
    }
    let ghost before = pieces@.map_values(|s: String| s@);
    let last = string_from_chars(&current);
    pieces.push(last);
    proof {
        assert(list@.take(i as int) =~= list@);
        assert(pieces@.map_values(|s: String| s@) =~= before.push(current@));
    }
    pieces
}

/// Where a pool of `len` addresses that would hand out `start` next stands after
/// `k` addresses were handed out.
pub open spec fn index_after(start: int, len: int, k: nat) -> int
    decreases k,
{
    if k == 0 {
        start
    } else {
        (index_after(start, len, (k - 1) as nat) + 1) % len
    }
}

/// Addresses handed out in turn, from the first, starting again after the last.
pub struct AddressPool<A> {
    pub addresses: Vec<A>,
    pub current_index: usize,
}

impl<A> AddressPool<A> {
    /// The next address to hand out is one of the pool's, where it has any.
    pub open spec fn wf(&self) -> bool {
        self.current_index < self.addresses@.len() || self.current_index == 0
    }

    /// A pool that hands out the first address first.
    pub fn new(addresses: Vec<A>) -> (r: Self)
        ensures
            r.wf(),
            r.addresses@ == addresses@,
            r.current_index == 0,
    {
        AddressPool { addresses, current_index: 0 }
    }

    /// Hands out the next address; the one after it is next, or the first after
    /// the last. The pool must hold an address.
    pub fn next_address(&mut self) -> (r: &A)
        requires
            old(self).wf(),
            old(self).addresses@.len() > 0,
        ensures
            final(self).wf(),
            *r == old(self).addresses@[old(self).current_index as int],
            final(self).addresses@ == old(self).addresses@,
            final(self).current_index == index_after(
                old(self).current_index as int,
                old(self).addresses@.len() as int,
                1,
            ),
    {
        let i = self.current_index;
        let len = self.addresses.len();
        self.current_index = (i + 1) % len;
        assert(index_after(i as int, len as int, 0) == i);
        &self.addresses[i]
    }
}

} // verus!
