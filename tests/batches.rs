use disperse_collect::address::Address;
use disperse_collect::amount::{normalize_amount, FractionOrAmount, FractionalAmount};
use disperse_collect::dto::{DisperseCollectResponse, TransactionResponse};
use disperse_collect::error::DcError;
use disperse_collect::recipients::RecipientMap;
use disperse_collect::service::{
    check_signer, construct_collect_senders, construct_disperse_recipients, resolve_transfer_amount,
    sum_amounts,
};
use disperse_collect::uint::Uint256;

fn n(v: u64) -> Uint256 {
    Uint256::from_u64(v)
}

fn addr(b: u8) -> Address {
    let mut bytes = [0u8; 20];
    bytes[19] = b;
    Address::new(bytes)
}

fn frac(fraction: u64, units: u64) -> FractionOrAmount {
    FractionOrAmount::Fraction(FractionalAmount { fraction: n(fraction), units: n(units) })
}

fn fixed(amount: u64) -> FractionOrAmount {
    FractionOrAmount::Amount { amount: n(amount) }
}

fn map_of(entries: &[(Address, FractionOrAmount)]) -> RecipientMap {
    let mut m = RecipientMap::new();
    for (a, v) in entries {
        m.insert(*a, *v);
    }
    m
}

#[test]
fn disperse_eth_within_balance() {
    let (a, b, caller) = (addr(1), addr(2), addr(9));
    let m = map_of(&[(a, frac(50, 100)), (b, fixed(30))]);
    let (addresses, amounts) = construct_disperse_recipients(caller, n(100), &m).unwrap();
    assert_eq!(vec![a, b], addresses);
    assert_eq!(vec![n(50), n(30)], amounts);
    assert_eq!(Some(n(80)), sum_amounts(&amounts));
    let resp = DisperseCollectResponse::new(TransactionResponse { tx_hash: [7; 32] }, &addresses, &amounts);
    assert_eq!(2, resp.transfers.len());
    assert_eq!((a, n(50)), resp.transfers.entry(0));
    assert_eq!((b, n(30)), resp.transfers.entry(1));
}

#[test]
fn disperse_eth_over_balance() {
    let (a, b, caller) = (addr(1), addr(2), addr(9));
    let m = map_of(&[(a, frac(60, 100)), (b, frac(60, 100))]);
    let r = construct_disperse_recipients(caller, n(100), &m);
    match r {
        Err(DcError::InsufficientFunds { required, available, address }) => {
            assert_eq!(n(120), required);
            assert_eq!(n(100), available);
            assert_eq!(caller, address);
        }
        _ => panic!("expected insufficient funds"),
    }
}

#[test]
fn disperse_reports_first_unresolved_share() {
    let m = map_of(&[(addr(1), fixed(1)), (addr(2), frac(1, 0)), (addr(3), frac(0, 100))]);
    match construct_disperse_recipients(addr(9), n(100), &m) {
        Err(DcError::InvalidFractionalAmount(e)) => {
            assert_eq!(n(0), e.0.units);
            assert_eq!(n(1), e.0.fraction);
        }
        _ => panic!("expected an invalid share"),
    }
}

#[test]
fn disperse_sum_that_overflows_is_reported_saturated() {
    let big = FractionOrAmount::Amount { amount: Uint256::max_value() };
    let m = map_of(&[(addr(1), big), (addr(2), big)]);
    match construct_disperse_recipients(addr(9), Uint256::max_value(), &m) {
        Err(DcError::InsufficientFunds { required, available, .. }) => {
            assert_eq!(Uint256::max_value(), required);
            assert_eq!(Uint256::max_value(), available);
        }
        _ => panic!("expected insufficient funds"),
    }
}

#[test]
fn disperse_of_nothing_is_empty() {
    let m = RecipientMap::new();
    let (addresses, amounts) = construct_disperse_recipients(addr(9), n(0), &m).unwrap();
    assert!(addresses.is_empty());
    assert!(amounts.is_empty());
}

#[test]
fn collect_checks_allowance_per_spender() {
    let s = addr(4);
    let m = map_of(&[(s, frac(100, 100))]);
    match construct_collect_senders(&m, &vec![(n(5), n(10))]) {
        Err(DcError::InsufficientFunds { required, available, address }) => {
            assert_eq!(n(10), required);
            assert_eq!(n(5), available);
            assert_eq!(s, address);
        }
        _ => panic!("expected insufficient funds"),
    }
}

#[test]
fn collect_fails_on_later_spender() {
    let (s1, s2) = (addr(1), addr(2));
    let m = map_of(&[(s1, fixed(3)), (s2, fixed(8))]);
    match construct_collect_senders(&m, &vec![(n(10), n(10)), (n(100), n(7))]) {
        Err(DcError::InsufficientFunds { required, available, address }) => {
            assert_eq!(n(8), required);
            assert_eq!(n(7), available);
            assert_eq!(s2, address);
        }
        _ => panic!("expected insufficient funds"),
    }
}

#[test]
fn collect_resolves_against_each_balance() {
    let (s1, s2) = (addr(1), addr(2));
    let m = map_of(&[(s2, frac(50, 100)), (s1, fixed(3))]);
    let (addresses, amounts) = construct_collect_senders(&m, &vec![(n(10), n(10)), (n(100), n(40))]).unwrap();
    assert_eq!(vec![s1, s2], addresses);
    assert_eq!(vec![n(3), n(20)], amounts);
}

#[test]
fn recipients_are_ordered_by_address() {
    let mut hi = [0u8; 20];
    hi[0] = 1;
    let (a, b, c) = (addr(200), Address::new(hi), addr(3));
    let m = map_of(&[(b, fixed(1)), (a, fixed(2)), (c, fixed(3)), (a, fixed(4))]);
    assert_eq!(3, m.len());
    assert_eq!((c, fixed(3)), m.entry(0));
    assert_eq!((a, fixed(4)), m.entry(1));
    assert_eq!((b, fixed(1)), m.entry(2));
    let first = construct_disperse_recipients(addr(9), n(100), &m).unwrap();
    let second = construct_disperse_recipients(addr(9), n(100), &m).unwrap();
    assert_eq!(vec![c, a, b], first.0);
    assert_eq!(first, second);
}

#[test]
fn transfer_within_and_over_balance() {
    let caller = addr(5);
    assert_eq!(n(25), resolve_transfer_amount(caller, frac(25, 100), n(100)).unwrap());
    match resolve_transfer_amount(caller, fixed(101), n(100)) {
        Err(DcError::InsufficientFunds { required, available, address }) => {
            assert_eq!(n(101), required);
            assert_eq!(n(100), available);
            assert_eq!(caller, address);
        }
        _ => panic!("expected insufficient funds"),
    }
    assert!(matches!(
        resolve_transfer_amount(caller, frac(1, 0), n(100)),
        Err(DcError::InvalidFractionalAmount(_))
    ));
}

#[test]
fn approve_with_zero_units_is_refused() {
    let r = normalize_amount(frac(1, 0), n(1000));
    assert_eq!(n(0), r.unwrap_err().0.units);
}

#[test]
fn signer_must_be_known() {
    assert!(check_signer(true, addr(1)).is_ok());
    match check_signer(false, addr(1)) {
        Err(DcError::SignerNotFound(a)) => assert_eq!(addr(1), a),
        _ => panic!("expected a missing signer"),
    }
}

#[test]
fn sum_of_amounts_overflows_to_none() {
    assert_eq!(None, sum_amounts(&vec![Uint256::max_value(), n(1)]));
    assert_eq!(Some(n(0)), sum_amounts(&vec![]));
}
