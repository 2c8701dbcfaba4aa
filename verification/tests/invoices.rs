use btc_iter2_backend::account::Principal;
use btc_iter2_backend::digest::invoice_hash;
use btc_iter2_backend::minter::Minter;
use sha2::Digest;
use btc_iter2_backend::amount::Amount;

fn amt(n: u128) -> Amount {
    Amount::from_u128(n)
}

fn dec(a: &Amount) -> String {
    String::from_utf8(a.to_decimal_ascii()).unwrap()
}

fn principal(bytes: &[u8]) -> Principal {
    Principal::from_slice(bytes).unwrap()
}

fn expected_hash(amount: u128, operation: &str, time: u64, nonce: u64) -> Vec<u8> {
    let input =
        format!("{:?}{:?}{:?}#{}", candid::Nat::from(amount), operation.to_string(), time, nonce);
    sha2::Sha256::digest(input.as_bytes()).to_vec()
}

#[test]
fn invoice_hash_is_sha256_of_debug_text() {
    let h = invoice_hash(&amt(100), &"Mint".to_string(), 1_700_000_000_000_000_000, 3);
    assert_eq!(h.len(), 32);
    let text = "Nat(100)\"Mint\"1700000000000000000#3";
    assert_eq!(h, sha2::Sha256::digest(text.as_bytes()).to_vec());
    assert_eq!(h, expected_hash(100, "Mint", 1_700_000_000_000_000_000, 3));
}

#[test]
fn invoice_hash_escapes_operation_text() {
    let op = "Re\"deem\n".to_string();
    let h = invoice_hash(&amt(12345), &op, 42, 0);
    assert_eq!(h, expected_hash(12345, &op, 42, 0));
}

#[test]
fn invoice_hash_depends_on_each_part() {
    let a = invoice_hash(&amt(100), &"Mint".to_string(), 1, 0);
    assert_ne!(a, invoice_hash(&amt(101), &"Mint".to_string(), 1, 0));
    assert_ne!(a, invoice_hash(&amt(100), &"Redeem".to_string(), 1, 0));
    assert_ne!(a, invoice_hash(&amt(100), &"Mint".to_string(), 2, 0));
    assert_ne!(a, invoice_hash(&amt(100), &"Mint".to_string(), 1, 1));
}

#[test]
fn create_invoice_keeps_it_under_its_hash() {
    let mut minter = Minter::new();
    let caller = principal(&[1, 2, 3, 4]);
    let canister = principal(&[9, 9]);
    let inv =
        minter.create_invoice(amt(250), "Mint".to_string(), caller.clone(), canister.clone(), 77).unwrap();
    assert_eq!(inv.hash, expected_hash(250, "Mint", 77, 0));
    assert_eq!(dec(&inv.amount), "250");
    assert!(!inv.used);
    assert_eq!(inv.operation, "Mint");
    assert!(inv.caller.equals(&caller));
    assert!(inv.to.owner.equals(&canister));
    assert_eq!(inv.to.subaccount, Some(inv.hash.clone()));
    assert!(minter.contains(&inv.hash));
    let kept = minter.get(&inv.hash).unwrap();
    assert_eq!(dec(&kept.amount), "250");
    assert_eq!(kept.hash, inv.hash);
    assert!(!minter.contains(&[0u8; 32]));
    assert!(minter.get(&[1u8; 32]).is_none());
}

#[test]
fn invoices_alike_get_distinct_identifiers_and_subaccounts() {
    let mut minter = Minter::new();
    let canister = principal(&[9]);
    let caller = principal(&[1]);
    let first =
        minter.create_invoice(amt(5), "Mint".to_string(), caller.clone(), canister.clone(), 3).unwrap();
    minter.mark_used(&first.hash);
    let second = minter.create_invoice(amt(5), "Mint".to_string(), caller, canister, 3).unwrap();
    assert_eq!(second.hash, expected_hash(5, "Mint", 3, 1));
    assert_ne!(first.hash, second.hash);
    assert_ne!(first.to.subaccount, second.to.subaccount);
    assert!(minter.get(&first.hash).unwrap().used);
    assert!(!minter.get(&second.hash).unwrap().used);
}

#[test]
fn mark_used_touches_only_that_invoice() {
    let mut minter = Minter::new();
    let canister = principal(&[9]);
    let a = minter.create_invoice(amt(5), "Mint".to_string(), principal(&[1]), canister.clone(), 3).unwrap();
    let b = minter.create_invoice(amt(6), "Redeem".to_string(), principal(&[1]), canister, 4).unwrap();
    minter.mark_used(&a.hash);
    assert!(minter.get(&a.hash).unwrap().used);
    assert_eq!(dec(&minter.get(&a.hash).unwrap().amount), "5");
    assert!(!minter.get(&b.hash).unwrap().used);
}

#[test]
fn invoice_hash_of_amount_beyond_128_bits() {
    let digits = "340282366920938463463374607431768211457";
    let amount = Amount::from_decimal_ascii(digits.as_bytes()).unwrap();
    let h = invoice_hash(&amount, &"Redeem".to_string(), 9, 4);
    let text = format!("Nat({})\"Redeem\"9#4", digits);
    assert_eq!(h, sha2::Sha256::digest(text.as_bytes()).to_vec());
    let nat = candid::Nat::parse(digits.as_bytes()).unwrap();
    let expected = format!("{:?}{:?}{:?}#{}", nat, "Redeem".to_string(), 9u64, 4u64);
    assert_eq!(h, sha2::Sha256::digest(expected.as_bytes()).to_vec());
}
