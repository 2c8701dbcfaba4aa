//! The decisions taken while a mint or a redemption is settled.
//!
//! Settling a claim on an invoice goes: check the invoice and the caller
//! ([`Minter::open_claim`]), ask one ledger for the balance of the invoice's
//! account, decide on the transfer ([`Claim::on_balance`]), ask the other
//! ledger to make it, read its reply ([`on_transfer`]), and mark the invoice
//! used if all went well ([`Minter::close_claim`]). The calls to the ledgers
//! are made by the canister between these steps.

use vstd::prelude::*;
use vstd::pervasive::unreached;
use crate::amount::Amount;
use crate::account::{Account, AccountView, Principal, slice_to_vec};
use crate::minter::{Invoice, InvoiceView, Minter, invoice_for, mark_used, per_invoice_subaccounts};

verus! {

/// Which of the two claims is made on an invoice.
#[derive(Clone, Copy, Debug)]
pub enum ClaimKind {
    /// Mint stable tokens against ckBTC paid in.
    Mint,
    /// Redeem ckBTC against stable tokens paid in.
    Redeem,
}

/// The operation an invoice must name to be claimed with `kind`.
pub open spec fn operation_of(kind: ClaimKind) -> Seq<char> {
    match kind {
        ClaimKind::Mint => "Mint"@,
        ClaimKind::Redeem => "Redeem"@,
    }
}

/// The ledger asked for the balance of the invoice's account.
pub open spec fn balance_ledger_id(kind: ClaimKind) -> Seq<char> {
    match kind {
        ClaimKind::Mint => "be2us-64aaa-aaaaa-qaabq-cai"@,
        ClaimKind::Redeem => "br5f7-7uaaa-aaaaa-qaaca-cai"@,
    }
}

/// The ledger asked to make the transfer.
pub open spec fn transfer_ledger_id(kind: ClaimKind) -> Seq<char> {
    match kind {
        ClaimKind::Mint => "br5f7-7uaaa-aaaaa-qaaca-cai"@,
        ClaimKind::Redeem => "be2us-64aaa-aaaaa-qaabq-cai"@,
    }
}

impl ClaimKind {
    /// The text of the principal of the ledger asked for the balance.
    pub fn balance_ledger(self) -> (res: &'static str)
        ensures
            res@ == balance_ledger_id(self),
    {
        match self {
            ClaimKind::Mint => "be2us-64aaa-aaaaa-qaabq-cai",
            ClaimKind::Redeem => "br5f7-7uaaa-aaaaa-qaaca-cai",
        }
    }

    /// The text of the principal of the ledger asked to make the transfer.
    pub fn transfer_ledger(self) -> (res: &'static str)
        ensures
            res@ == transfer_ledger_id(self),
    {
        match self {
            ClaimKind::Mint => "br5f7-7uaaa-aaaaa-qaaca-cai",
            ClaimKind::Redeem => "be2us-64aaa-aaaaa-qaabq-cai",
        }
    }

    fn operation(self) -> (res: String)
        ensures
            res@ == operation_of(self),
    {
        match self {
            ClaimKind::Mint => String::from_str("Mint"),
            ClaimKind::Redeem => String::from_str("Redeem"),
        }
    }
}

/// Why a claim on invoice `inv` with `kind` by `caller` is refused, if it is.
pub open spec fn refusal(inv: InvoiceView, kind: ClaimKind, caller: Seq<u8>) -> Option<Seq<char>> {
    if inv.used {
        Some("This invoice has already been used."@)
    } else if inv.operation != operation_of(kind) {
        Some("This invoice is not for minting."@)
    } else if inv.caller != caller {
        Some("This invoice is not for you."@)
    } else {
        None
    }
}

/// A claim under way: what was claimed, on which invoice, and what the
/// invoice asks to be paid where.
pub struct Claim {
    pub kind: ClaimKind,
    pub hash: Vec<u8>,
    pub account: Account,
    pub amount: Amount,
}

/// A claim as plain values.
pub struct ClaimView {
    pub kind: ClaimKind,
    pub hash: Seq<u8>,
    pub account: AccountView,
    pub amount: nat,
}

impl View for Claim {
    type V = ClaimView;

    open spec fn view(&self) -> ClaimView {
        ClaimView { kind: self.kind, hash: self.hash@, account: self.account@, amount: self.amount@ }
    }
}

/// A transfer for the ledger to make: `amount` into `to`.
pub struct Transfer {
    pub amount: Amount,
    pub to: Account,
}

/// A transfer as plain values.
pub struct TransferView {
    pub amount: nat,
    pub to: AccountView,
}

impl View for Transfer {
    type V = TransferView;

    open spec fn view(&self) -> TransferView {
        TransferView { amount: self.amount@, to: self.to@ }
    }
}

impl Minter {
    /// Checks a claim of `kind` by `caller` on the invoice with identifier
    /// `hash`: refused if the invoice was used, names another operation, or
    /// was made for someone else; otherwise the claim on the invoice's
    /// account and amount.
    pub fn open_claim(&self, kind: ClaimKind, hash: &[u8], caller: &Principal) -> (res: Result<
        Claim,
        String,
    >)
        requires
            self@.contains_key(hash@),
        ensures
            per_invoice_subaccounts(self@),
            match res {
                Ok(c) => refusal(self@[hash@], kind, caller@) is None && c@ == (ClaimView {
                    kind,
                    hash: hash@,
                    account: self@[hash@].to,
                    amount: self@[hash@].amount,
                }),
                Err(e) => refusal(self@[hash@], kind, caller@) == Some(e@),
            },
    {
        let found = self.get(hash);
        let inv: &Invoice = match found {
            Some(inv) => inv,
            None => unreached(),
        };
        if inv.used {
            return Err(String::from_str("This invoice has already been used."));
        }
        let expected = kind.operation();
        if !(inv.operation == expected) {
            return Err(String::from_str("This invoice is not for minting."));
        }
        if !inv.caller.equals(caller) {
            return Err(String::from_str("This invoice is not for you."));
        }
        let h = slice_to_vec(hash);
        Ok(Claim { kind, hash: h, account: inv.to.clone(), amount: inv.amount.clone() })
    }

    /// Ends a claim on the invoice with identifier `claim.hash`: the invoice
    /// is marked used where the claim succeeded, and nothing changes where
    /// it failed.
    pub fn close_claim(&mut self, claim: &Claim, outcome: &Result<String, String>)
        requires
            old(self)@.contains_key(claim.hash@),
        ensures
            outcome is Ok ==> final(self)@ == mark_used(old(self)@, claim.hash@),
            outcome is Err ==> final(self)@ == old(self)@,
            final(self).nonce() == old(self).nonce(),
    {
        if outcome.is_ok() {
            self.mark_used(claim.hash.as_slice());
        }
    }
}

impl Claim {
    /// Decides on the transfer from the balance that the ledger reported for
    /// the invoice's account: none where the balance could not be had or is
    /// below the invoice's amount; otherwise the invoice's amount, into the
    /// invoice's account.
    pub fn on_balance(&self, reply: Result<Amount, String>) -> (res: Result<Transfer, String>)
        ensures
            match reply {
                Err(e) => res matches Err(m) && m@ == "Couldn't get balance:\n"@ + e@,
                Ok(balance) => if balance@ < self.amount@ {
                    res matches Err(m) && m@ == "Not enough funds available in the Account!"@
                } else {
                    res matches Ok(t) && t@ == (TransferView {
                        amount: self.amount@,
                        to: self.account@,
                    })
                },
            },
    {
        match reply {
            Err(e) => Err(String::from_str("Couldn't get balance:\n").concat(e.as_str())),
            Ok(balance) => {
                if balance.lt(&self.amount) {
                    Err(String::from_str("Not enough funds available in the Account!"))
                } else {
                    Ok(Transfer { amount: self.amount.clone(), to: self.account.clone() })
                }
            },
        }
    }
}

/// The outcome of a claim from the reply of the ledger asked to transfer.
pub fn on_transfer(reply: Result<(), String>) -> (res: Result<String, String>)
    ensures
        match reply {
            Ok(_) => res matches Ok(m) && m@ == "success!"@,
            Err(e) => res matches Err(m) && m@ == "Couldn't mint stablecoin:\n"@ + e@,
        },
{
    match reply {
        Ok(_) => Ok(String::from_str("success!")),
        Err(e) => Err(String::from_str("Couldn't mint stablecoin:\n").concat(e.as_str())),
    }
}

/// A fresh invoice can be claimed by the caller it was made for, with the
/// operation it names, and by no one else.
pub proof fn lemma_fresh_invoice_claimable(
    amount: nat,
    kind: ClaimKind,
    caller: Seq<u8>,
    other: Seq<u8>,
    canister: Seq<u8>,
    time: u64,
    nonce: u64,
)
    ensures
        refusal(invoice_for(amount, operation_of(kind), caller, canister, time, nonce), kind, caller)
            is None,
        other != caller ==> refusal(
            invoice_for(amount, operation_of(kind), caller, canister, time, nonce),
            kind,
            other,
        ) == Some("This invoice is not for you."@),
{
}

/// An invoice pays out once: after a claim on it succeeded, every later
/// claim on it, of either kind and by anyone, is refused as used.
pub proof fn lemma_settled_invoice_refused(
    book: Map<Seq<u8>, InvoiceView>,
    hash: Seq<u8>,
    kind: ClaimKind,
    caller: Seq<u8>,
)
    requires
        book.contains_key(hash),
    ensures
        mark_used(book, hash).contains_key(hash),
        refusal(mark_used(book, hash)[hash], kind, caller) == Some(
            "This invoice has already been used."@,
        ),
{
}

/// Settling a claim changes no other invoice, and keeps the invoice's
/// amount, account, operation and owner.
pub proof fn lemma_settlement_is_local(
    book: Map<Seq<u8>, InvoiceView>,
    hash: Seq<u8>,
    other: Seq<u8>,
)
    requires
        book.contains_key(hash),
    ensures
        mark_used(book, hash).dom() == book.dom(),
        other != hash && book.contains_key(other) ==> mark_used(book, hash)[other] == book[other],
        mark_used(book, hash)[hash] == (InvoiceView { used: true, ..book[hash] }),
{
    assert(mark_used(book, hash).dom() =~= book.dom());
}

/// How a claim on an invoice is answered, case by case: a used invoice is
/// refused as used; an unused invoice that names another operation than the
/// claim ("Mint" for a mint, "Redeem" for a redemption) is refused as not
/// for minting, whatever its amount, account or owner; an unused invoice of
/// the right operation made for someone else is refused as not theirs; and
/// an unused invoice of the right operation claimed by its own caller is
/// not refused.
pub proof fn lemma_claim_refusals(inv: InvoiceView, kind: ClaimKind, caller: Seq<u8>)
    ensures
        inv.used ==> refusal(inv, kind, caller) == Some("This invoice has already been used."@),
        !inv.used && kind is Mint && inv.operation != "Mint"@ ==> refusal(inv, kind, caller)
            == Some("This invoice is not for minting."@),
        !inv.used && kind is Redeem && inv.operation != "Redeem"@ ==> refusal(inv, kind, caller)
            == Some("This invoice is not for minting."@),
        !inv.used && (kind is Mint ==> inv.operation == "Mint"@) && (kind is Redeem
            ==> inv.operation == "Redeem"@) && inv.caller != caller ==> refusal(inv, kind, caller)
            == Some("This invoice is not for you."@),
        !inv.used && (kind is Mint ==> inv.operation == "Mint"@) && (kind is Redeem
            ==> inv.operation == "Redeem"@) && inv.caller == caller ==> refusal(
            inv,
            kind,
            caller,
        ) is None,
{
}

/// A mint asks the ckBTC ledger for the balance and the stable-token ledger
/// for the transfer; a redemption asks them the other way round. The two
/// ledgers are different canisters.
pub proof fn lemma_ledgers_swap()
    ensures
        balance_ledger_id(ClaimKind::Mint) == "be2us-64aaa-aaaaa-qaabq-cai"@,
        transfer_ledger_id(ClaimKind::Mint) == "br5f7-7uaaa-aaaaa-qaaca-cai"@,
        balance_ledger_id(ClaimKind::Redeem) == transfer_ledger_id(ClaimKind::Mint),
        transfer_ledger_id(ClaimKind::Redeem) == balance_ledger_id(ClaimKind::Mint),
        balance_ledger_id(ClaimKind::Mint) != transfer_ledger_id(ClaimKind::Mint),
{
    reveal_strlit("be2us-64aaa-aaaaa-qaabq-cai");
    reveal_strlit("br5f7-7uaaa-aaaaa-qaaca-cai");
    assert("be2us-64aaa-aaaaa-qaabq-cai"@[1] != "br5f7-7uaaa-aaaaa-qaaca-cai"@[1]);
}

} // verus!
