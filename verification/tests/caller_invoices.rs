use btc_iter2_backend::account::Principal;
use btc_iter2_backend::caller_book::CallerBook;
use btc_iter2_backend::amount::Amount;

fn amt(n: u128) -> Amount {
    Amount::from_u128(n)
}

fn dec(a: &Amount) -> String {
    String::from_utf8(a.to_decimal_ascii()).unwrap()
}

fn principal(bytes: &[u8]) -> Principal {
    Principal::from_slice(bytes).unwrap()
}

#[test]
fn get_invoice_asks_for_100_into_callers_subaccount() {
    let mut book = CallerBook::new();
    let caller = principal(&[4, 5]);
    let canister = principal(&[8]);
    let inv = book.get_invoice(caller.clone(), canister.clone());
    assert_eq!(dec(&inv.amount), "100");
    assert!(inv.to.owner.equals(&canister));
    let mut sub = vec![4u8, 5];
    sub.extend_from_slice(&[0u8; 30]);
    assert_eq!(inv.to.subaccount, Some(sub));
    assert_eq!(dec(&book.get(&caller).unwrap().amount), "100");
    assert!(book.get(&principal(&[4])).is_none());
}

#[test]
fn surplus_over_invoice_is_minted() {
    let mut book = CallerBook::new();
    let caller = principal(&[4, 5]);
    let canister = principal(&[8]);
    book.get_invoice(caller.clone(), canister.clone());
    let short = book.on_balance(&caller, &canister, &amt(99)).err().unwrap();
    assert_eq!(short, "Not enough funds available in the Account!");
    let mint = book.on_balance(&caller, &canister, &amt(250)).ok().unwrap();
    assert_eq!(dec(&mint.amount), "150");
    assert!(mint.to.owner.equals(&canister));
    assert!(mint.created_at_time.is_none());
    assert!(mint.memo.is_none());
}

#[test]
fn minted_invoice_is_removed() {
    let mut book = CallerBook::new();
    let caller = principal(&[4, 5]);
    let other = principal(&[6]);
    let canister = principal(&[8]);
    book.get_invoice(caller.clone(), canister.clone());
    book.get_invoice(other.clone(), canister.clone());
    let failed = book.on_mint(&caller, Err("rejected".to_string()));
    assert_eq!(failed, Err("Couldn't transfer funds to default account:\nrejected".to_string()));
    assert!(book.get(&caller).is_some());
    assert_eq!(book.on_mint(&caller, Ok(())), Ok(()));
    assert!(book.get(&caller).is_none());
    assert!(book.get(&other).is_some());
}

#[test]
fn second_invoice_replaces_first() {
    let mut book = CallerBook::new();
    let caller = principal(&[4, 5]);
    book.get_invoice(caller.clone(), principal(&[8]));
    book.get_invoice(caller.clone(), principal(&[9]));
    assert!(book.get(&caller).unwrap().to.owner.equals(&principal(&[9])));
    book.remove(&caller);
    assert!(book.get(&caller).is_none());
}

#[test]
fn padded_subaccounts_share_for_trailing_zeros() {
    let mut book = CallerBook::new();
    let canister = principal(&[9]);
    let a = book.get_invoice(principal(&[1]), canister.clone());
    let b = book.get_invoice(principal(&[1, 0]), canister);
    assert_eq!(a.to.subaccount, b.to.subaccount);
}
