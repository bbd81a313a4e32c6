use vstd::prelude::*;

verus! {

/// Lexicographic order on byte strings: the first differing byte decides, and a proper
/// prefix comes first.
pub open spec fn bytes_lt(a: Seq<u8>, b: Seq<u8>) -> bool
    decreases a.len(),
{
    if a.len() == 0 || b.len() == 0 {
        a.len() < b.len()
    } else if a[0] != b[0] {
        a[0] < b[0]
    } else {
        bytes_lt(a.drop_first(), b.drop_first())
    }
}

pub proof fn lemma_bytes_lt_transitive(a: Seq<u8>, b: Seq<u8>, c: Seq<u8>)
    requires
        bytes_lt(a, b),
        bytes_lt(b, c),
    ensures
        bytes_lt(a, c),
    decreases a.len(),
{
    if a.len() > 0 && b.len() > 0 && c.len() > 0 && a[0] == b[0] && b[0] == c[0] {
        lemma_bytes_lt_transitive(a.drop_first(), b.drop_first(), c.drop_first());
    }
}

pub proof fn lemma_bytes_lt_total(a: Seq<u8>, b: Seq<u8>)
    requires
        a.len() == b.len(),
    ensures
        a == b || bytes_lt(a, b) || bytes_lt(b, a),
    decreases a.len(),
{
    if a.len() == 0 {
        assert(a =~= b);
    } else if a[0] == b[0] {
        lemma_bytes_lt_total(a.drop_first(), b.drop_first());
        if a.drop_first() == b.drop_first() {
            assert(a =~= b) by {
                assert forall|i: int| 0 <= i < a.len() implies a[i] == b[i] by {
                    if i > 0 {
                        assert(a[i] == a.drop_first()[i - 1]);
                    }
                }
            }
        }
    }
}

/// A 20-byte account identifier.
#[derive(Clone, Copy, Debug, Eq, Hash)]
pub struct Address {
    pub bytes: [u8; 20],
}

impl Address {
    /// Strict ascending order of addresses, byte by byte.
    pub open spec fn lt(self, other: Address) -> bool {
        bytes_lt(self.bytes@, other.bytes@)
    }

    pub fn new(bytes: [u8; 20]) -> (r: Address)
        ensures
            r.bytes == bytes,
    {
        Address { bytes }
    }

    /// Compares two addresses in their canonical order.
    pub fn compare(&self, other: &Address) -> (r: core::cmp::Ordering)
        ensures
            (r == core::cmp::Ordering::Less) == self.lt(*other),
            (r == core::cmp::Ordering::Equal) == (self.bytes@ == other.bytes@),
            (r == core::cmp::Ordering::Greater) == other.lt(*self),
    {
        compare_addresses(self, other)
    }
}

impl PartialEq for Address {
    fn eq(&self, o: &Address) -> (r: bool) {
        match self.compare(o) {
            core::cmp::Ordering::Equal => true,
            _ => false,
        }
    }
}

impl vstd::std_specs::cmp::PartialEqSpecImpl for Address {
    open spec fn obeys_eq_spec() -> bool {
        true
    }

    open spec fn eq_spec(&self, o: &Address) -> bool {
        self.bytes@ == o.bytes@
    }
}

/// Relies on the `Ord` that alloy's `Address` derives over its `[u8; 20]`: lexicographic
/// order of the bytes.
#[verifier::external_body]
fn compare_addresses(a: &Address, b: &Address) -> (r: core::cmp::Ordering)
    ensures
        (r == core::cmp::Ordering::Less) == bytes_lt(a.bytes@, b.bytes@),
        (r == core::cmp::Ordering::Equal) == (a.bytes@ == b.bytes@),
        (r == core::cmp::Ordering::Greater) == bytes_lt(b.bytes@, a.bytes@),
{
    alloy::primitives::Address::new(a.bytes).cmp(&alloy::primitives::Address::new(b.bytes))
}

} // verus!
