//! Deposit accounts in the ICRC-1 layout and bare invoices.

use vstd::prelude::*;
use crate::amount::Amount;
use crate::account::{Account, AccountView, Principal, MAX_PRINCIPAL_LEN};

verus! {

/// The 32-byte subaccount that encodes principal bytes `p` (at most 29 of
/// them): zeros, then the length of `p`, then `p` itself, right-aligned.
pub open spec fn icrc_subaccount(p: Seq<u8>) -> Seq<u8> {
    let size = p.len() as int;
    Seq::new(
        32,
        |i: int|
            if i + size < 31 {
                0u8
            } else if i + size == 31 {
                size as u8
            } else {
                p[i + size - 32]
            },
    )
}

/// The deposit subaccount of principal `p`: 32 bytes, zeros, then the
/// number of bytes of `p`, then the bytes of `p` at the end.
pub fn to_subaccount(p: Principal) -> (res: Vec<u8>)
    ensures
        res@ == icrc_subaccount(p@),
        res@.len() == 32,
        forall|i: int| 0 <= i < 31 - p@.len() ==> #[trigger] res@[i] == 0,
        res@[31 - p@.len()] as int == p@.len(),
        forall|j: int| 0 <= j < p@.len() ==> #[trigger] res@[32 - p@.len() + j] == p@[j],
{
    let bytes = p.as_slice();
    let size = bytes.len();
    let mut a: Vec<u8> = Vec::new();
    let mut i: usize = 0;
    while i < 32
        invariant
            bytes@ == p@,
            size == bytes@.len(),
            size <= MAX_PRINCIPAL_LEN,
            i <= 32,
            a@.len() == i,
            forall|j: int| 0 <= j < i ==> a@[j] == #[trigger] icrc_subaccount(p@)[j],
        decreases 32 - i,
    {
        let b: u8 = if i + size < 31 {
            0
        } else if i + size == 31 {
            size as u8
        } else {
            bytes[i + size - 32]
        };
        a.push(b);
        i = i + 1;
    }
    assert(a@ =~= icrc_subaccount(p@));
    proof {
        lemma_icrc_subaccount_layout(p@);
    }
    a
}

/// The account that `canister` holds for deposits from `caller`.
pub fn to_account(caller: Principal, canister: Principal) -> (res: Account)
    ensures
        res@ == (AccountView { owner: canister@, subaccount: Some(icrc_subaccount(caller@)) }),
{
    Account { owner: canister, subaccount: Some(to_subaccount(caller)) }
}

/// An invoice: where to pay, and how much.
pub struct Invoice {
    pub to: Account,
    pub amount: Amount,
}

/// An invoice as plain values.
pub struct InvoiceView {
    pub to: AccountView,
    pub amount: nat,
}

impl View for Invoice {
    type V = InvoiceView;

    open spec fn view(&self) -> InvoiceView {
        InvoiceView { to: self.to@, amount: self.amount@ }
    }
}

/// An invoice asking for `amount` to be paid into `to`.
pub fn create_invoice(to: Account, amount: Amount) -> (res: Invoice)
    ensures
        res@ == (InvoiceView { to: to@, amount: amount@ }),
{
    Invoice { to, amount }
}

proof fn lemma_subaccount_layout(p: Seq<u8>, k: int)
    requires
        p.len() <= MAX_PRINCIPAL_LEN,
        0 <= k < 32,
    ensures
        k + p.len() < 31 ==> icrc_subaccount(p)[k] == 0u8,
        k + p.len() == 31 ==> icrc_subaccount(p)[k] as int == p.len(),
        k + p.len() > 31 ==> icrc_subaccount(p)[k] == p[k + p.len() - 32],
{
    assert((p.len() as int) as u8 == p.len());
}

/// The ICRC deposit subaccount is 32 bytes: zeros, then the number of
/// bytes of the principal, then its bytes, ending at the last byte.
pub proof fn lemma_icrc_subaccount_layout(p: Seq<u8>)
    requires
        p.len() <= MAX_PRINCIPAL_LEN,
    ensures
        icrc_subaccount(p).len() == 32,
        forall|i: int| 0 <= i < 31 - p.len() ==> #[trigger] icrc_subaccount(p)[i] == 0,
        icrc_subaccount(p)[31 - p.len()] as int == p.len(),
        forall|j: int| 0 <= j < p.len() ==> #[trigger] icrc_subaccount(p)[32 - p.len() + j] == p[j],
{
    lemma_subaccount_layout(p, 31 - p.len());
    assert forall|j: int| 0 <= j < p.len() implies #[trigger] icrc_subaccount(p)[32 - p.len() + j]
        == p[j] by {
        lemma_subaccount_layout(p, 32 - p.len() + j);
    }
}

/// Distinct principals get distinct deposit subaccounts: the subaccount
/// determines the principal it was made from.
pub proof fn lemma_subaccount_injective(p: Seq<u8>, q: Seq<u8>)
    requires
        p.len() <= MAX_PRINCIPAL_LEN,
        q.len() <= MAX_PRINCIPAL_LEN,
        icrc_subaccount(p) == icrc_subaccount(q),
    ensures
        p == q,
{
    if p.len() < q.len() {
        lemma_subaccount_layout(p, 31 - q.len());
        lemma_subaccount_layout(q, 31 - q.len());
    } else if q.len() < p.len() {
        lemma_subaccount_layout(p, 31 - p.len());
        lemma_subaccount_layout(q, 31 - p.len());
    }
    assert(p.len() == q.len());
    assert forall|j: int| 0 <= j < p.len() implies p[j] == q[j] by {
        lemma_subaccount_layout(p, 32 - p.len() + j);
        lemma_subaccount_layout(q, 32 - p.len() + j);
    }
    assert(p =~= q);
}

} // verus!
