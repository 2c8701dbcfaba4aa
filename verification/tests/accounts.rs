use btc_iter2_backend::account::{Account, Principal};
use btc_iter2_backend::decimal::decimal_string;
use btc_iter2_backend::utils::{create_invoice, to_account, to_subaccount};
use btc_iter2_backend::amount::Amount;

fn amt(n: u128) -> Amount {
    Amount::from_u128(n)
}

fn dec(a: &Amount) -> String {
    String::from_utf8(a.to_decimal_ascii()).unwrap()
}

fn principal(bytes: &[u8]) -> Principal {
    Principal::from_slice(bytes).unwrap()
}

#[test]
fn decimal_of_zero_and_large_numbers() {
    assert_eq!(decimal_string(0), "0");
    assert_eq!(decimal_string(7), "7");
    assert_eq!(decimal_string(10), "10");
    assert_eq!(decimal_string(1234567890), "1234567890");
    assert_eq!(decimal_string(u128::MAX), u128::MAX.to_string());
}

#[test]
fn principal_accepts_at_most_29_bytes() {
    assert!(Principal::from_slice(&[]).is_some());
    assert!(Principal::from_slice(&[7u8; 29]).is_some());
    assert!(Principal::from_slice(&[7u8; 30]).is_none());
    let p = principal(&[1, 2, 3]);
    assert_eq!(p.as_slice(), &[1, 2, 3]);
}

#[test]
fn principal_equality_compares_bytes() {
    let a = principal(&[1, 2, 3]);
    let b = principal(&[1, 2, 3]);
    let c = principal(&[1, 2, 4]);
    let d = principal(&[1, 2]);
    assert!(a.equals(&b));
    assert!(!a.equals(&c));
    assert!(!a.equals(&d));
    assert!(a.clone().equals(&a));
}

#[test]
fn icrc_subaccount_layout() {
    let sub = to_subaccount(principal(&[9, 8, 7]));
    let mut expected = vec![0u8; 28];
    expected.extend_from_slice(&[3, 9, 8, 7]);
    assert_eq!(sub, expected);
    assert_eq!(sub.len(), 32);
}

#[test]
fn icrc_subaccount_of_longest_and_empty_principal() {
    let long: Vec<u8> = (1..=29).collect();
    let sub = to_subaccount(principal(&long));
    let mut expected = vec![0u8, 0, 29];
    expected.extend_from_slice(&long);
    assert_eq!(sub, expected);
    assert_eq!(to_subaccount(principal(&[])), vec![0u8; 32]);
}

#[test]
fn icrc_subaccounts_tell_trailing_zeros_apart() {
    let a = to_subaccount(principal(&[1]));
    let b = to_subaccount(principal(&[1, 0]));
    assert_ne!(a, b);
}

#[test]
fn utils_account_and_invoice() {
    let caller = principal(&[5, 6]);
    let canister = principal(&[0, 0, 0, 0, 0, 0x10, 0, 1, 1, 1]);
    let account: Account = to_account(caller, canister.clone());
    assert!(account.owner.equals(&canister));
    let mut sub = vec![0u8; 29];
    sub.extend_from_slice(&[2, 5, 6]);
    assert_eq!(account.subaccount.clone(), Some(sub));
    let invoice = create_invoice(account.clone(), amt(100));
    assert_eq!(dec(&invoice.amount), "100");
    assert!(invoice.to.owner.equals(&canister));
    assert_eq!(invoice.to.subaccount, account.subaccount);
}
