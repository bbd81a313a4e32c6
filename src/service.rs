use vstd::prelude::*;

use crate::address::Address;
use crate::amount::{normalize_amount, resolve, FractionOrAmount, InvalidFractionalAmountError};
use crate::error::DcError;
use crate::recipients::{keys_of, sorted_by_address, RecipientMap};
use crate::uint::{checked_add, greater_than, word_modulus, Uint256};

verus! {

/// Every entry resolves against `total`.
pub open spec fn all_resolved(s: Seq<(Address, FractionOrAmount)>, total: nat) -> bool {
    forall|i: int| 0 <= i < s.len() ==> (#[trigger] resolve(s[i].1, total)) is Some
}

/// The sum of what the entries resolve to against `total` (an entry that does not resolve
/// counts as zero).
pub open spec fn resolved_sum(s: Seq<(Address, FractionOrAmount)>, total: nat) -> nat
    decreases s.len(),
{
    if s.len() == 0 {
        0
    } else {
        resolved_sum(s.drop_last(), total) + match resolve(s.last().1, total) {
            Some(v) => v,
            None => 0,
        }
    }
}

/// `k` is the first entry that does not resolve against `total`.
pub open spec fn first_unresolved(s: Seq<(Address, FractionOrAmount)>, total: nat, k: int) -> bool {
    &&& 0 <= k < s.len()
    &&& resolve(s[k].1, total) is None
    &&& forall|i: int| 0 <= i < k ==> (#[trigger] resolve(s[i].1, total)) is Some
}

/// The error of an entry whose share cannot be resolved.
pub open spec fn unresolved_error(spec: FractionOrAmount) -> DcError {
    DcError::InvalidFractionalAmount(InvalidFractionalAmountError(spec->Fraction_0))
}

/// `n`, or the largest 256-bit number where `n` does not fit.
pub open spec fn saturated(n: nat) -> nat {
    if n < word_modulus() {
        n
    } else {
        (word_modulus() - 1) as nat
    }
}

/// `e` reports that `required` is more than `available` holds for `address`.
pub open spec fn is_shortfall(e: DcError, required: nat, available: nat, address: Address) -> bool {
    e matches DcError::InsufficientFunds { required: r, available: a, address: d } && r.value()
        == required && a.value() == available && d == address
}

/// The batch holds each entry's address and resolved amount, in the entries' order.
pub open spec fn batch_of(
    s: Seq<(Address, FractionOrAmount)>,
    reference: spec_fn(int) -> nat,
    addresses: Seq<Address>,
    amounts: Seq<Uint256>,
) -> bool {
    &&& addresses == keys_of(s)
    &&& amounts.len() == s.len()
    &&& forall|i: int| 0 <= i < s.len() ==> resolve(s[i].1, reference(i)) == Some(
        #[trigger] amounts[i].value(),
    )
}

/// Strictly ascending by address.
pub open spec fn ascending(a: Seq<Address>) -> bool {
    forall|i: int, j: int| 0 <= i < j < a.len() ==> (#[trigger] a[i]).lt(#[trigger] a[j])
}

/// A batch follows the ascending order of its entries' addresses, and two batches of the
/// same entries against the same reference balances hold the same addresses and the same
/// amounts, limb for limb.
pub proof fn lemma_batch_deterministic(
    s: Seq<(Address, FractionOrAmount)>,
    reference: spec_fn(int) -> nat,
    a1: Seq<Address>,
    m1: Seq<Uint256>,
    a2: Seq<Address>,
    m2: Seq<Uint256>,
)
    requires
        sorted_by_address(s),
        batch_of(s, reference, a1, m1),
        batch_of(s, reference, a2, m2),
    ensures
        ascending(a1),
        a1 == a2,
        m1 == m2,
{
    lemma_batch_ascending(s, reference, a1, m1);
    assert forall|i: int| 0 <= i < m1.len() implies m1[i] == m2[i] by {
        assert(resolve(s[i].1, reference(i)) == Some(m1[i].value()));
        assert(resolve(s[i].1, reference(i)) == Some(m2[i].value()));
        m1[i].lemma_value_injective(m2[i]);
    }
    assert(m1 =~= m2);
}

proof fn lemma_batch_ascending(
    s: Seq<(Address, FractionOrAmount)>,
    reference: spec_fn(int) -> nat,
    a: Seq<Address>,
    m: Seq<Uint256>,
)
    requires
        sorted_by_address(s),
        batch_of(s, reference, a, m),
    ensures
        ascending(a),
{
    assert forall|i: int, j: int| 0 <= i < j < a.len() implies (#[trigger] a[i]).lt(
        #[trigger] a[j],
    ) by {
        assert(s[i].0.lt(s[j].0));
    }
}

proof fn lemma_resolved_sum_step(s: Seq<(Address, FractionOrAmount)>, total: nat, i: int)
    requires
        0 <= i < s.len(),
    ensures
        resolved_sum(s.subrange(0, i + 1), total) == resolved_sum(s.subrange(0, i), total)
            + match resolve(s[i].1, total) {
            Some(v) => v,
            None => 0,
        },
{
    assert(s.subrange(0, i + 1).drop_last() =~= s.subrange(0, i));
}

/// Resolves every entry against the sender's one balance and checks their sum against it.
/// The first entry that does not resolve fails the batch; otherwise a sum above the balance
/// fails it, reported as at most the largest 256-bit number.
pub fn construct_disperse_recipients(
    sender: Address,
    total_balance: Uint256,
    recipients: &RecipientMap,
) -> (r: Result<(Vec<Address>, Vec<Uint256>), DcError>)
    requires
        recipients.wf(),
    ensures
        all_resolved(recipients@, total_balance.value()) && resolved_sum(
            recipients@,
            total_balance.value(),
        ) > total_balance.value() ==> (r matches Err(e) && is_shortfall(
            e,
            saturated(resolved_sum(recipients@, total_balance.value())),
            total_balance.value(),
            sender,
        )),
        r matches Ok((a, _)) ==> ascending(a@),
        ({
            let s = recipients@;
            let total = total_balance.value();
            match r {
                Ok((a, m)) => all_resolved(s, total) && resolved_sum(s, total) <= total && batch_of(
                    s,
                    |i: int| total,
                    a@,
                    m@,
                ),
                Err(e) => (exists|k: int|
                    first_unresolved(s, total, k) && e == unresolved_error(s[k].1)) || (
                all_resolved(s, total) && resolved_sum(s, total) > total && is_shortfall(
                    e,
                    saturated(resolved_sum(s, total)),
                    total,
                    sender,
                )),
            }
        }),
{
    let ghost s = recipients@;
    let ghost total = total_balance.value();
    let n = recipients.len();
    let mut addresses: Vec<Address> = Vec::new();
    let mut amounts: Vec<Uint256> = Vec::new();
    let mut sum = Uint256::zero();
    let mut overflowed = false;
    let mut i: usize = 0;
    while i < n
        invariant
            n == s.len(),
            s == recipients@,
            total == total_balance.value(),
            i <= n,
            forall|j: int| 0 <= j < i ==> (#[trigger] resolve(s[j].1, total)) is Some,
            addresses@ == keys_of(s.subrange(0, i as int)),
            amounts@.len() == i,
            forall|j: int| 0 <= j < i ==> resolve(s[j].1, total) == Some(
                #[trigger] amounts@[j].value(),
            ),
            overflowed == (resolved_sum(s.subrange(0, i as int), total) >= word_modulus()),
            sum.value() == saturated(resolved_sum(s.subrange(0, i as int), total)),
        decreases n - i,
    {
        let (address, spec) = recipients.entry(i);
        let amount = match normalize_amount(spec, total_balance) {
            Ok(v) => v,
            Err(e) => {
                assert(first_unresolved(s, total, i as int));
                return Err(DcError::InvalidFractionalAmount(e));
            },
        };
        proof {
            lemma_resolved_sum_step(s, total, i as int);
            sum.lemma_value_bounded();
        }
        match checked_add(sum, amount) {
            Some(v) => {
                sum = v;
            },
            None => {
                sum = Uint256::max_value();
                overflowed = true;
            },
        }
        addresses.push(address);
        amounts.push(amount);
        i = i + 1;
        assert(addresses@ =~= keys_of(s.subrange(0, i as int)));
    }
    assert(s.subrange(0, n as int) =~= s);
    assert(addresses@ =~= keys_of(s));
    proof {
        total_balance.lemma_value_bounded();
    }
    if overflowed || greater_than(&sum, &total_balance) {
        return Err(
            DcError::InsufficientFunds { required: sum, available: total_balance, address: sender },
        );
    }
    proof {
        lemma_batch_ascending(s, |i: int| total, addresses@, amounts@);
    }
    Ok((addresses, amounts))
}

pub open spec fn min_nat(a: nat, b: nat) -> nat {
    if a <= b {
        a
    } else {
        b
    }
}

/// An entry cannot be collected from a spender with `funds = (allowance, balance)`: its
/// share of the balance does not resolve, or it asks for more than both allow.
pub open spec fn collect_fails(entry: (Address, FractionOrAmount), funds: (Uint256, Uint256)) -> bool {
    match resolve(entry.1, funds.1.value()) {
        None => true,
        Some(v) => v > min_nat(funds.0.value(), funds.1.value()),
    }
}

/// `e` is the error that a failing entry is reported with.
pub open spec fn collect_error(
    entry: (Address, FractionOrAmount),
    funds: (Uint256, Uint256),
    e: DcError,
) -> bool {
    match resolve(entry.1, funds.1.value()) {
        None => e == unresolved_error(entry.1),
        Some(v) => is_shortfall(e, v, min_nat(funds.0.value(), funds.1.value()), entry.0),
    }
}

/// Resolves each spender's entry against its own balance and checks it against the least
/// of that balance and its allowance, `funds[i] = (allowance, balance)` for the `i`-th
/// spender. The first entry that fails fails the batch.
pub fn construct_collect_senders(
    spenders: &RecipientMap,
    funds: &Vec<(Uint256, Uint256)>,
) -> (r: Result<(Vec<Address>, Vec<Uint256>), DcError>)
    requires
        spenders.wf(),
        funds@.len() == spenders@.len(),
    ensures
        forall|k: int|
            0 <= k < spenders@.len() && (forall|i: int|
                0 <= i < k ==> !#[trigger] collect_fails(spenders@[i], funds@[i])) && collect_fails(
                spenders@[k],
                funds@[k],
            ) ==> (r matches Err(e) && collect_error(spenders@[k], funds@[k], e)),
        r matches Ok((a, _)) ==> ascending(a@),
        ({
            let s = spenders@;
            match r {
                Ok((a, m)) => (forall|i: int|
                    0 <= i < s.len() ==> !#[trigger] collect_fails(s[i], funds@[i])) && batch_of(
                    s,
                    |i: int| funds@[i].1.value(),
                    a@,
                    m@,
                ),
                Err(e) => exists|k: int|
                    0 <= k < s.len() && (forall|i: int|
                        0 <= i < k ==> !#[trigger] collect_fails(s[i], funds@[i])) && collect_fails(
                        s[k],
                        funds@[k],
                    ) && collect_error(s[k], funds@[k], e),
            }
        }),
{
    let ghost s = spenders@;
    let n = spenders.len();
    let mut addresses: Vec<Address> = Vec::new();
    let mut amounts: Vec<Uint256> = Vec::new();
    let mut i: usize = 0;
    while i < n
        invariant
            n == s.len(),
            s == spenders@,
            funds@.len() == n,
            i <= n,
            forall|j: int| 0 <= j < i ==> !#[trigger] collect_fails(s[j], funds@[j]),
            addresses@ == keys_of(s.subrange(0, i as int)),
            amounts@.len() == i,
            forall|j: int| 0 <= j < i ==> resolve(s[j].1, funds@[j].1.value()) == Some(
                #[trigger] amounts@[j].value(),
            ),
        decreases n - i,
    {
        let (address, spec) = spenders.entry(i);
        let (allowance, balance) = funds[i];
        let amount = match normalize_amount(spec, balance) {
            Ok(v) => v,
            Err(e) => {
                assert(collect_fails(s[i as int], funds@[i as int]));
                return Err(DcError::InvalidFractionalAmount(e));
            },
        };
        let available = if greater_than(&allowance, &balance) {
            balance
        } else {
            allowance
        };
        if greater_than(&amount, &available) {
            let e = DcError::InsufficientFunds { required: amount, available, address };
            assert(collect_fails(s[i as int], funds@[i as int]));
            assert(collect_error(s[i as int], funds@[i as int], e));
            return Err(e);
        }
        addresses.push(address);
        amounts.push(amount);
        i = i + 1;
        assert(addresses@ =~= keys_of(s.subrange(0, i as int)));
    }
    assert(s.subrange(0, n as int) =~= s);
    proof {
        lemma_batch_ascending(s, |i: int| funds@[i].1.value(), addresses@, amounts@);
    }
    Ok((addresses, amounts))
}

/// Resolves a single transfer against the sender's balance and checks that the balance
/// covers it.
pub fn resolve_transfer_amount(caller: Address, amount: FractionOrAmount, balance: Uint256) -> (r:
    Result<Uint256, DcError>)
    ensures
        match resolve(amount, balance.value()) {
            None => r == Err::<Uint256, DcError>(unresolved_error(amount)),
            Some(v) => if v > balance.value() {
                r matches Err(e) && is_shortfall(e, v, balance.value(), caller)
            } else {
                r matches Ok(x) && x.value() == v
            },
        },
{
    let actual = match normalize_amount(amount, balance) {
        Ok(v) => v,
        Err(e) => {
            return Err(DcError::InvalidFractionalAmount(e));
        },
    };
    if greater_than(&actual, &balance) {
        return Err(DcError::InsufficientFunds { required: actual, available: balance, address: caller });
    }
    Ok(actual)
}

/// A transaction is only sent from an address that has a signing key.
pub fn check_signer(has_signer: bool, signer: Address) -> (r: Result<(), DcError>)
    ensures
        has_signer ==> r is Ok,
        !has_signer ==> r == Err::<(), DcError>(DcError::SignerNotFound(signer)),
{
    if has_signer {
        Ok(())
    } else {
        Err(DcError::SignerNotFound(signer))
    }
}

/// The sum of a sequence of amounts.
pub open spec fn amounts_sum(s: Seq<Uint256>) -> nat
    decreases s.len(),
{
    if s.len() == 0 {
        0
    } else {
        amounts_sum(s.drop_last()) + s.last().value()
    }
}

/// The sum of `amounts`, or `None` where it leaves 256 bits.
pub fn sum_amounts(amounts: &Vec<Uint256>) -> (r: Option<Uint256>)
    ensures
        match r {
            Some(v) => amounts_sum(amounts@) < word_modulus() && v.value() == amounts_sum(amounts@),
            None => amounts_sum(amounts@) >= word_modulus(),
        },
{
    let mut sum = Uint256::zero();
    let mut i: usize = 0;
    while i < amounts.len()
        invariant
            i <= amounts@.len(),
            sum.value() == amounts_sum(amounts@.subrange(0, i as int)),
        decreases amounts@.len() - i,
    {
        assert(amounts@.subrange(0, i + 1).drop_last() =~= amounts@.subrange(0, i as int));
        match checked_add(sum, amounts[i]) {
            Some(v) => {
                sum = v;
            },
            None => {
                proof {
                    lemma_amounts_sum_monotone(amounts@, i + 1);
                }
                return None;
            },
        }
        i = i + 1;
    }
    assert(amounts@.subrange(0, i as int) =~= amounts@);
    proof {
        sum.lemma_value_bounded();
    }
    Some(sum)
}

proof fn lemma_amounts_sum_monotone(s: Seq<Uint256>, i: int)
    requires
        0 <= i <= s.len(),
    ensures
        amounts_sum(s.subrange(0, i)) <= amounts_sum(s),
    decreases s.len() - i,
{
    if i < s.len() {
        lemma_amounts_sum_monotone(s, i + 1);
        assert(s.subrange(0, i + 1).drop_last() =~= s.subrange(0, i));
    } else {
        assert(s.subrange(0, i) =~= s);
    }
}

} // verus!
