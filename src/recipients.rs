use vstd::prelude::*;

use crate::address::{lemma_bytes_lt_total, lemma_bytes_lt_transitive, Address};
use crate::amount::FractionOrAmount;
use crate::uint::Uint256;

verus! {

/// Entries keyed by address, strictly ascending by address (so each key occurs once).
pub open spec fn sorted_by_address<T>(s: Seq<(Address, T)>) -> bool {
    forall|i: int, j: int| 0 <= i < j < s.len() ==> (#[trigger] s[i]).0.lt((#[trigger] s[j]).0)
}

/// The keys of a sequence of entries, in order.
pub open spec fn keys_of<T>(s: Seq<(Address, T)>) -> Seq<Address> {
    s.map_values(|e: (Address, T)| e.0)
}

/// `s` with `(key, value)` put in its place: the entry of `key` is replaced where there is
/// one, and otherwise the new entry goes after every smaller key and before every larger one.
pub open spec fn inserted<T>(s: Seq<(Address, T)>, key: Address, value: T, r: Seq<
    (Address, T),
>) -> bool {
    exists|p: int|
        0 <= p <= s.len() && (forall|i: int| 0 <= i < p ==> (#[trigger] s[i]).0.lt(key)) && (
        forall|i: int| p <= i < s.len() ==> !(#[trigger] s[i]).0.lt(key)) && if p < s.len()
            && s[p].0.bytes@ == key.bytes@ {
            r == s.update(p, (key, value))
        } else {
            r == s.insert(p, (key, value))
        }
}

/// Who receives (or gives) what: a map from address to share or amount, walked in ascending
/// order of address.
pub struct RecipientMap {
    entries: Vec<(Address, FractionOrAmount)>,
}

impl View for RecipientMap {
    type V = Seq<(Address, FractionOrAmount)>;

    closed spec fn view(&self) -> Seq<(Address, FractionOrAmount)> {
        self.entries@
    }
}

impl RecipientMap {
    pub open spec fn wf(&self) -> bool {
        sorted_by_address(self@)
    }

    pub fn new() -> (r: RecipientMap)
        ensures
            r.wf(),
            r@.len() == 0,
    {
        RecipientMap { entries: Vec::new() }
    }

    pub fn len(&self) -> (r: usize)
        ensures
            r == self@.len(),
    {
        self.entries.len()
    }

    /// The entry at position `i` in ascending order of address.
    pub fn entry(&self, i: usize) -> (r: (Address, FractionOrAmount))
        requires
            i < self@.len(),
        ensures
            r == self@[i as int],
    {
        self.entries[i]
    }

    /// Sets the share or amount of `address`, keeping the entries in ascending order.
    pub fn insert(&mut self, address: Address, value: FractionOrAmount)
        requires
            old(self).wf(),
        ensures
            final(self).wf(),
            inserted(old(self)@, address, value, final(self)@),
    {
        let ghost s = self@;
        let mut i: usize = 0;
        let mut found = false;
        while !found && i < self.entries.len()
            invariant
                self@ == s,
                sorted_by_address(s),
                0 <= i <= s.len(),
                forall|j: int| 0 <= j < i ==> (#[trigger] s[j]).0.lt(address),
                found ==> i < s.len() && !s[i as int].0.lt(address),
            decreases s.len() - i + if found { 0int } else { 1int },
        {
            match self.entries[i].0.compare(&address) {
                core::cmp::Ordering::Less => {
                    i = i + 1;
                },
                _ => {
                    found = true;
                },
            }
        }
        proof {
            assert forall|j: int| i <= j < s.len() implies !(#[trigger] s[j]).0.lt(address) by {
                if j > i {
                    if s[j].0.lt(address) {
                        lemma_bytes_lt_transitive(s[i as int].0.bytes@, s[j].0.bytes@, address.bytes@);
                    }
                }
            }
        }
        if i < self.entries.len() && self.entries[i].0 == address {
            self.entries.set(i, (address, value));
            proof {
                assert forall|a: int, b: int| 0 <= a < b < self@.len() implies (
                #[trigger] self@[a]).0.lt((#[trigger] self@[b]).0) by {
                    assert(s[a].0.lt(s[b].0));
                }
            }
            return ;
        }
        self.entries.insert(i, (address, value));
        proof {
            let r = self@;
            assert forall|a: int, b: int| 0 <= a < b < r.len() implies (#[trigger] r[a]).0.lt(
                (#[trigger] r[b]).0) by {
                if b < i {
                    assert(s[a].0.lt(s[b].0));
                } else if b == i {
                    assert(s[a].0.lt(address));
                } else if a == i {
                    let t = s[i as int].0;
                    lemma_bytes_lt_total(t.bytes@, address.bytes@);
                    assert(address.lt(t));
                    if b - 1 > i {
                        assert(t.lt(s[b - 1].0));
                        lemma_bytes_lt_transitive(address.bytes@, t.bytes@, s[b - 1].0.bytes@);
                    }
                } else {
                    assert(s[a].0.lt(s[b - 1].0) || a > i);
                    if a > i {
                        assert(s[a - 1].0.lt(s[b - 1].0));
                    }
                }
            }
        }
    }
}

/// Resolved amounts keyed by address, in the order of the batch they came from.
pub struct TransferMap {
    entries: Vec<(Address, Uint256)>,
}

impl View for TransferMap {
    type V = Seq<(Address, Uint256)>;

    closed spec fn view(&self) -> Seq<(Address, Uint256)> {
        self.entries@
    }
}

impl TransferMap {
    /// Pairs each address with the amount at the same position; the shorter sequence
    /// decides the length.
    pub fn from_batch(addresses: &Vec<Address>, amounts: &Vec<Uint256>) -> (r: TransferMap)
        ensures
            r@.len() == if addresses@.len() <= amounts@.len() {
                addresses@.len()
            } else {
                amounts@.len()
            },
            forall|i: int| 0 <= i < r@.len() ==> #[trigger] r@[i] == (addresses@[i], amounts@[i]),
    {
        let n = if addresses.len() <= amounts.len() {
            addresses.len()
        } else {
            amounts.len()
        };
        let mut entries: Vec<(Address, Uint256)> = Vec::new();
        let mut i: usize = 0;
        while i < n
            invariant
                n <= addresses@.len(),
                n <= amounts@.len(),
                i <= n,
                entries@.len() == i,
                forall|j: int| 0 <= j < i ==> #[trigger] entries@[j] == (addresses@[j], amounts@[j]),
            decreases n - i,
        {
            entries.push((addresses[i], amounts[i]));
            i = i + 1;
        }
        TransferMap { entries }
    }

    pub fn len(&self) -> (r: usize)
        ensures
            r == self@.len(),
    {
        self.entries.len()
    }

    pub fn entry(&self, i: usize) -> (r: (Address, Uint256))
        requires
            i < self@.len(),
        ensures
            r == self@[i as int],
    {
        self.entries[i]
    }
}

} // verus!
