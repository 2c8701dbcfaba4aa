use btc_iter2_backend::account::Principal;
use btc_iter2_backend::minter::{Invoice, Minter};
use btc_iter2_backend::settle::{on_transfer, ClaimKind};
use btc_iter2_backend::amount::Amount;

fn amt(n: u128) -> Amount {
    Amount::from_u128(n)
}

fn dec(a: &Amount) -> String {
    String::from_utf8(a.to_decimal_ascii()).unwrap()
}

fn principal(bytes: &[u8]) -> Principal {
    Principal::from_slice(bytes).unwrap()
}

fn book_with(operation: &str, amount: u128) -> (Minter, Invoice, Principal) {
    let mut minter = Minter::new();
    let caller = principal(&[1, 2, 3]);
    let inv = minter
        .create_invoice(amt(amount), operation.to_string(), caller.clone(), principal(&[7]), 11)
        .unwrap();
    (minter, inv, caller)
}

#[test]
fn claim_of_right_kind_by_owner_is_opened() {
    let (minter, inv, caller) = book_with("Mint", 100);
    let claim = minter.open_claim(ClaimKind::Mint, &inv.hash, &caller).ok().unwrap();
    assert_eq!(dec(&claim.amount), "100");
    assert_eq!(claim.hash, inv.hash);
    assert!(claim.account.owner.equals(&principal(&[7])));
    assert_eq!(claim.account.subaccount, Some(inv.hash.clone()));
}

#[test]
fn each_invoice_is_paid_into_its_own_account() {
    let mut minter = Minter::new();
    let caller = principal(&[1, 2, 3]);
    let a = minter.create_invoice(amt(100), "Mint".to_string(), caller.clone(), principal(&[7]), 11).unwrap();
    let b = minter.create_invoice(amt(100), "Mint".to_string(), caller.clone(), principal(&[7]), 11).unwrap();
    let ca = minter.open_claim(ClaimKind::Mint, &a.hash, &caller).ok().unwrap();
    let cb = minter.open_claim(ClaimKind::Mint, &b.hash, &caller).ok().unwrap();
    assert_ne!(ca.account.subaccount, cb.account.subaccount);
}

#[test]
fn claim_of_other_kind_is_refused() {
    let (minter, inv, caller) = book_with("Mint", 100);
    let err = minter.open_claim(ClaimKind::Redeem, &inv.hash, &caller).err().unwrap();
    assert_eq!(err, "This invoice is not for minting.");
    let (minter, inv, caller) = book_with("Redeem", 100);
    let err = minter.open_claim(ClaimKind::Mint, &inv.hash, &caller).err().unwrap();
    assert_eq!(err, "This invoice is not for minting.");
    assert!(minter.open_claim(ClaimKind::Redeem, &inv.hash, &caller).is_ok());
}

#[test]
fn claim_by_someone_else_is_refused() {
    let (minter, inv, _) = book_with("Mint", 100);
    let err = minter.open_claim(ClaimKind::Mint, &inv.hash, &principal(&[4])).err().unwrap();
    assert_eq!(err, "This invoice is not for you.");
}

#[test]
fn used_invoice_is_refused_first() {
    let (mut minter, inv, _) = book_with("Mint", 100);
    minter.mark_used(&inv.hash);
    let err = minter.open_claim(ClaimKind::Redeem, &inv.hash, &principal(&[4])).err().unwrap();
    assert_eq!(err, "This invoice has already been used.");
}

#[test]
fn balance_decides_the_transfer() {
    let (minter, inv, caller) = book_with("Mint", 100);
    let claim = minter.open_claim(ClaimKind::Mint, &inv.hash, &caller).ok().unwrap();
    let short = claim.on_balance(Ok(amt(99))).err().unwrap();
    assert_eq!(short, "Not enough funds available in the Account!");
    let t = claim.on_balance(Ok(amt(100))).ok().unwrap();
    assert_eq!(dec(&t.amount), "100");
    assert_eq!(t.to.subaccount, inv.to.subaccount);
    let t = claim.on_balance(Ok(amt(5000))).ok().unwrap();
    assert_eq!(dec(&t.amount), "100");
    let e = claim.on_balance(Err("CanisterReject".to_string())).err().unwrap();
    assert_eq!(e, "Couldn't get balance:\nCanisterReject");
}

#[test]
fn transfer_reply_gives_the_outcome() {
    assert_eq!(on_transfer(Ok(())), Ok("success!".to_string()));
    assert_eq!(
        on_transfer(Err("boom".to_string())),
        Err("Couldn't mint stablecoin:\nboom".to_string())
    );
}

#[test]
fn ledgers_swap_between_mint_and_redeem() {
    assert_eq!(ClaimKind::Mint.balance_ledger(), "be2us-64aaa-aaaaa-qaabq-cai");
    assert_eq!(ClaimKind::Mint.transfer_ledger(), "br5f7-7uaaa-aaaaa-qaaca-cai");
    assert_eq!(ClaimKind::Redeem.balance_ledger(), "br5f7-7uaaa-aaaaa-qaaca-cai");
    assert_eq!(ClaimKind::Redeem.transfer_ledger(), "be2us-64aaa-aaaaa-qaabq-cai");
}

#[test]
fn settled_invoice_pays_once() {
    let (mut minter, inv, caller) = book_with("Mint", 100);
    let claim = minter.open_claim(ClaimKind::Mint, &inv.hash, &caller).ok().unwrap();
    let transfer = claim.on_balance(Ok(amt(100))).ok().unwrap();
    assert_eq!(dec(&transfer.amount), "100");
    let outcome = on_transfer(Ok(()));
    minter.close_claim(&claim, &outcome);
    assert!(minter.get(&inv.hash).unwrap().used);
    let again = minter.open_claim(ClaimKind::Mint, &inv.hash, &caller).err().unwrap();
    assert_eq!(again, "This invoice has already been used.");
}

#[test]
fn failed_claim_leaves_invoice_open() {
    let (mut minter, inv, caller) = book_with("Redeem", 100);
    let claim = minter.open_claim(ClaimKind::Redeem, &inv.hash, &caller).ok().unwrap();
    let outcome = on_transfer(Err("nope".to_string()));
    minter.close_claim(&claim, &outcome);
    assert!(!minter.get(&inv.hash).unwrap().used);
    assert!(minter.open_claim(ClaimKind::Redeem, &inv.hash, &caller).is_ok());
}
