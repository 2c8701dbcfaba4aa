//! Invoices kept per caller, each for a fixed amount, settled by minting
//! whatever was paid beyond that amount.

use vstd::prelude::*;
use vstd::pervasive::unreached;
use crate::amount::Amount;
use crate::account::{Account, AccountView, Principal};
use crate::minter::{padded_subaccount, to_account};
use crate::utils::{Invoice, InvoiceView, create_invoice};
use crate::keyed::{
    keyed,
    distinct_keys,
    lemma_keyed_contains,
    lemma_keyed_absent,
    lemma_keyed_update,
    lemma_keyed_push,
    lemma_keyed_remove,
};

verus! {

/// The amount that every invoice of the book asks for.
pub const INVOICE_AMOUNT: u128 = 100;

/// The entries of a list of (caller, invoice) pairs, as plain values.
pub open spec fn caller_entries(s: Seq<(Principal, Invoice)>) -> Seq<(Seq<u8>, InvoiceView)> {
    s.map_values(|e: (Principal, Invoice)| (e.0@, e.1@))
}

/// Invoices keyed by the principal of the caller they were made for.
///
/// The book is a list rather than a hash map: vstd specifies `HashMap` only
/// for keys that it knows to obey its key model (integers, `bool` and a few
/// others), and a principal is a byte vector.
pub struct CallerBook {
    invoices: Vec<(Principal, Invoice)>,
}

impl View for CallerBook {
    type V = Map<Seq<u8>, InvoiceView>;

    closed spec fn view(&self) -> Map<Seq<u8>, InvoiceView> {
        keyed(caller_entries(self.invoices@))
    }
}

/// A request to mint `amount` into `to`.
pub struct Mint {
    pub amount: Amount,
    pub to: Account,
    pub created_at_time: Option<Amount>,
    pub memo: Option<Vec<u8>>,
}

impl CallerBook {
    #[verifier::type_invariant]
    spec fn callers_distinct(self) -> bool {
        distinct_keys(caller_entries(self.invoices@))
    }

    /// A book with no invoices.
    pub fn new() -> (res: CallerBook)
        ensures
            res@ == Map::<Seq<u8>, InvoiceView>::empty(),
    {
        let b = CallerBook { invoices: Vec::new() };
        assert(caller_entries(b.invoices@) =~= Seq::<(Seq<u8>, InvoiceView)>::empty());
        b
    }

    fn find(&self, caller: &Principal) -> (res: Option<usize>)
        ensures
            match res {
                Some(i) => i < self.invoices@.len() && self.invoices@[i as int].0@ == caller@,
                None => forall|j: int|
                    0 <= j < self.invoices@.len() ==> self.invoices@[j].0@ != caller@,
            },
    {
        let mut i: usize = 0;
        while i < self.invoices.len()
            invariant
                i <= self.invoices@.len(),
                forall|j: int| 0 <= j < i ==> self.invoices@[j].0@ != caller@,
            decreases self.invoices@.len() - i,
        {
            if self.invoices[i].0.equals(caller) {
                return Some(i);
            }
            i = i + 1;
        }
        None
    }

    /// The invoice made for `caller`, if there is one.
    pub fn get(&self, caller: &Principal) -> (res: Option<&Invoice>)
        ensures
            match res {
                Some(inv) => self@.contains_key(caller@) && inv@ == self@[caller@],
                None => !self@.contains_key(caller@),
            },
    {
        proof {
            use_type_invariant(self);
        }
        let ghost s = caller_entries(self.invoices@);
        match self.find(caller) {
            Some(i) => {
                proof {
                    lemma_keyed_contains(s, i as int);
                }
                Some(&self.invoices[i].1)
            },
            None => {
                proof {
                    assert forall|j: int| 0 <= j < s.len() implies s[j].0 != caller@ by {
                        assert(s[j].0 == self.invoices@[j].0@);
                    }
                    lemma_keyed_absent(s, caller@);
                }
                None
            },
        }
    }

    /// Makes the invoice of `caller`: the fixed amount, payable into
    /// `canister`'s subaccount for the caller; keeps it for the caller in
    /// place of any earlier one and returns it.
    pub fn get_invoice(&mut self, caller: Principal, canister: Principal) -> (res: Invoice)
        ensures
            res@ == (InvoiceView {
                to: AccountView { owner: canister@, subaccount: Some(padded_subaccount(caller@)) },
                amount: INVOICE_AMOUNT as nat,
            }),
            final(self)@ == old(self)@.insert(caller@, res@),
    {
        proof {
            use_type_invariant(&*self);
        }
        let account = to_account(caller.clone(), canister);
        let invoice = create_invoice(account, Amount::from_u128(INVOICE_AMOUNT));
        let kept = create_invoice(invoice.to.clone(), invoice.amount.clone());
        let found = self.find(&caller);
        let mut v: Vec<(Principal, Invoice)> = Vec::new();
        std::mem::swap(&mut v, &mut self.invoices);
        let ghost s = caller_entries(v@);
        let ghost w = (caller@, kept@);
        match found {
            Some(i) => {
                v.set(i, (caller, kept));
                proof {
                    assert(caller_entries(v@) =~= s.update(i as int, w));
                    lemma_keyed_update(s, i as int, w);
                }
            },
            None => {
                v.push((caller, kept));
                proof {
                    assert(caller_entries(v@) =~= s.push(w));
                    assert forall|j: int| 0 <= j < s.len() implies s[j].0 != w.0 by {
                        assert(s[j].0 == old(self).invoices@[j].0@);
                    }
                    lemma_keyed_push(s, w);
                }
            },
        }
        self.invoices = v;
        invoice
    }

    /// Decides on the mint for `caller` from the balance the ledger
    /// reported for the caller's deposit account at `canister`: refused where
    /// the balance is below the invoice's amount; otherwise the balance less
    /// that amount, into the deposit account.
    pub fn on_balance(&self, caller: &Principal, canister: &Principal, balance: &Amount) -> (res:
        Result<Mint, String>)
        requires
            self@.contains_key(caller@),
        ensures
            balance@ < self@[caller@].amount ==> (res matches Err(m) && m@
                == "Not enough funds available in the Account!"@),
            balance@ >= self@[caller@].amount ==> (res matches Ok(mint) && mint.amount@ == balance@
                - self@[caller@].amount && mint.to@ == (AccountView {
                owner: canister@,
                subaccount: Some(padded_subaccount(caller@)),
            }) && mint.created_at_time is None && mint.memo is None),
    {
        let amount = match self.get(caller) {
            Some(inv) => inv.amount.clone(),
            None => unreached(),
        };
        if balance.lt(&amount) {
            return Err(String::from_str("Not enough funds available in the Account!"));
        }
        let account = to_account(caller.clone(), canister.clone());
        Ok(Mint { amount: balance.sub(&amount), to: account, created_at_time: None, memo: None })
    }

    /// Ends the settlement of `caller`'s invoice from the ledger's reply to
    /// the mint: on success the invoice is removed; on failure nothing
    /// changes and the error is given.
    pub fn on_mint(&mut self, caller: &Principal, reply: Result<(), String>) -> (res: Result<
        (),
        String,
    >)
        ensures
            reply is Ok ==> res is Ok && final(self)@ == old(self)@.remove(caller@),
            reply matches Err(e) ==> (res matches Err(m) && m@
                == "Couldn't transfer funds to default account:\n"@ + e@ && final(self)@ == old(
                self,
            )@),
    {
        match reply {
            Err(e) => Err(String::from_str("Couldn't transfer funds to default account:\n").concat(e.as_str())),
            Ok(()) => {
                self.remove(caller);
                Ok(())
            },
        }
    }

    /// Drops the invoice of `caller`, if there is one.
    pub fn remove(&mut self, caller: &Principal)
        ensures
            final(self)@ == old(self)@.remove(caller@),
    {
        proof {
            use_type_invariant(&*self);
        }
        let found = self.find(caller);
        let mut v: Vec<(Principal, Invoice)> = Vec::new();
        std::mem::swap(&mut v, &mut self.invoices);
        let ghost s = caller_entries(v@);
        match found {
            Some(i) => {
                let _ = v.remove(i);
                proof {
                    assert(caller_entries(v@) =~= s.remove(i as int));
                    lemma_keyed_remove(s, i as int);
                }
            },
            None => {
                proof {
                    assert forall|j: int| 0 <= j < s.len() implies s[j].0 != caller@ by {
                        assert(s[j].0 == old(self).invoices@[j].0@);
                    }
                    lemma_keyed_absent(s, caller@);
                    assert(keyed(s).remove(caller@) =~= keyed(s));
                }
            },
        }
        self.invoices = v;
    }
}

} // verus!
