//! The invoice book of the minter: invoices keyed by their identifier.

use vstd::prelude::*;
use crate::amount::Amount;
use crate::account::{Account, AccountView, Principal, bytes_equal, slice_to_vec, MAX_PRINCIPAL_LEN};
use crate::digest::{invoice_digest, invoice_hash};
use crate::keyed::{keyed, distinct_keys, lemma_keyed_contains, lemma_keyed_absent, lemma_keyed_update, lemma_keyed_push};

verus! {

/// An invoice of the minter: pay `amount` into `to`, then claim the
/// `operation` ("Mint" or "Redeem") with the invoice's identifier `hash`.
pub struct Invoice {
    pub to: Account,
    pub amount: Amount,
    pub hash: Vec<u8>,
    pub used: bool,
    pub operation: String,
    pub caller: Principal,
}

/// An invoice as plain values.
pub struct InvoiceView {
    pub to: AccountView,
    pub amount: nat,
    pub hash: Seq<u8>,
    pub used: bool,
    pub operation: Seq<char>,
    pub caller: Seq<u8>,
}

impl View for Invoice {
    type V = InvoiceView;

    open spec fn view(&self) -> InvoiceView {
        InvoiceView {
            to: self.to@,
            amount: self.amount@,
            hash: self.hash@,
            used: self.used,
            operation: self.operation@,
            caller: self.caller@,
        }
    }
}

impl Clone for Invoice {
    fn clone(&self) -> (res: Self)
        ensures
            res@ == self@,
    {
        let hash = self.hash.clone();
        assert(hash@ =~= self.hash@);
        Invoice {
            to: self.to.clone(),
            amount: self.amount.clone(),
            hash,
            used: self.used,
            operation: self.operation.clone(),
            caller: self.caller.clone(),
        }
    }
}

/// The deposit subaccount that a caller's invoice of the per-caller book
/// names for principal bytes `p`: the bytes of `p`, then zeros up to 32
/// bytes.
pub open spec fn padded_subaccount(p: Seq<u8>) -> Seq<u8> {
    Seq::new(32, |i: int| if i < p.len() { p[i] } else { 0u8 })
}

pub(crate) fn to_subaccount(p: Principal) -> (res: Vec<u8>)
    ensures
        res@ == padded_subaccount(p@),
        res@.len() == 32,
        forall|i: int| 0 <= i < p@.len() ==> #[trigger] res@[i] == p@[i],
        forall|i: int| p@.len() <= i < 32 ==> #[trigger] res@[i] == 0,
{
    let bytes = p.as_slice();
    let size = bytes.len();
    let mut a: Vec<u8> = Vec::new();
    let mut i: usize = 0;
    while i < 32
        invariant
            bytes@ == p@,
            size == bytes@.len(),
            size <= MAX_PRINCIPAL_LEN,
            i <= 32,
            a@.len() == i,
            forall|j: int| 0 <= j < i ==> a@[j] == #[trigger] padded_subaccount(p@)[j],
        decreases 32 - i,
    {
        let b: u8 = if i < size {
            bytes[i]
        } else {
            0
        };
        a.push(b);
        i = i + 1;
    }
    assert(a@ =~= padded_subaccount(p@));
    a
}

pub(crate) fn to_account(caller: Principal, canister: Principal) -> (res: Account)
    ensures
        res@ == (AccountView { owner: canister@, subaccount: Some(padded_subaccount(caller@)) }),
{
    Account { owner: canister, subaccount: Some(to_subaccount(caller)) }
}

/// The per-caller deposit subaccount is 32 bytes: the principal's bytes,
/// then zeros.
pub proof fn lemma_padded_subaccount_layout(p: Seq<u8>)
    requires
        p.len() <= MAX_PRINCIPAL_LEN,
    ensures
        padded_subaccount(p).len() == 32,
        forall|i: int| 0 <= i < p.len() ==> #[trigger] padded_subaccount(p)[i] == p[i],
        forall|i: int| p.len() <= i < 32 ==> #[trigger] padded_subaccount(p)[i] == 0,
{
}

/// Principals with the same number of bytes get distinct deposit
/// subaccounts. (Principals of different lengths may share one: the bytes
/// `[1]` and `[1, 0]` both give `1` followed by 31 zeros.)
pub proof fn lemma_padded_subaccount_injective(p: Seq<u8>, q: Seq<u8>)
    requires
        p.len() <= MAX_PRINCIPAL_LEN,
        q.len() <= MAX_PRINCIPAL_LEN,
        p.len() == q.len(),
        padded_subaccount(p) == padded_subaccount(q),
    ensures
        p == q,
{
    assert forall|j: int| 0 <= j < p.len() implies p[j] == q[j] by {
        assert(padded_subaccount(p)[j] == p[j]);
        assert(padded_subaccount(q)[j] == q[j]);
        assert(padded_subaccount(p)[j] == padded_subaccount(q)[j]);
    }
    assert(p =~= q);
}

/// The invoice that `caller` gets for `amount` and `operation` at `time`
/// as the minter's invoice number `nonce`: payable into the canister's
/// subaccount named by the invoice's own identifier, not used yet.
pub open spec fn invoice_for(
    amount: nat,
    operation: Seq<char>,
    caller: Seq<u8>,
    canister: Seq<u8>,
    time: u64,
    nonce: u64,
) -> InvoiceView {
    let hash = invoice_digest(amount, operation, time, nonce);
    InvoiceView {
        to: AccountView { owner: canister, subaccount: Some(hash) },
        amount,
        hash,
        used: false,
        operation,
        caller,
    }
}

/// A new invoice is unused, asks for the amount given, names the
/// operation and the caller given, carries the identifier made from the
/// amount, the operation, the time and the counter, and is paid into the
/// canister's subaccount named by that identifier.
pub proof fn lemma_new_invoice(
    amount: nat,
    operation: Seq<char>,
    caller: Seq<u8>,
    canister: Seq<u8>,
    time: u64,
    nonce: u64,
)
    ensures
        !invoice_for(amount, operation, caller, canister, time, nonce).used,
        invoice_for(amount, operation, caller, canister, time, nonce).amount == amount,
        invoice_for(amount, operation, caller, canister, time, nonce).operation == operation,
        invoice_for(amount, operation, caller, canister, time, nonce).caller == caller,
        invoice_for(amount, operation, caller, canister, time, nonce).hash == invoice_digest(
            amount,
            operation,
            time,
            nonce,
        ),
        invoice_for(amount, operation, caller, canister, time, nonce).to.owner == canister,
        invoice_for(amount, operation, caller, canister, time, nonce).to.subaccount == Some(
            invoice_digest(amount, operation, time, nonce),
        ),
{
}

/// Each invoice of the book is paid into the subaccount named by its own
/// identifier.
pub open spec fn per_invoice_subaccounts(book: Map<Seq<u8>, InvoiceView>) -> bool {
    forall|k: Seq<u8>| #[trigger] book.contains_key(k) ==> book[k].to.subaccount == Some(k)
}

/// The refusal given where a new invoice's identifier is already kept.
pub open spec fn identifier_in_use() -> Seq<char> {
    "This invoice identifier is already in use."@
}

/// Two invoices of a book are paid into different subaccounts.
pub proof fn lemma_invoices_have_own_subaccounts(
    book: Map<Seq<u8>, InvoiceView>,
    k1: Seq<u8>,
    k2: Seq<u8>,
)
    requires
        per_invoice_subaccounts(book),
        book.contains_key(k1),
        book.contains_key(k2),
        k1 != k2,
    ensures
        book[k1].to.subaccount != book[k2].to.subaccount,
{
    assert(book[k1].to.subaccount == Some(k1));
    assert(book[k2].to.subaccount == Some(k2));
}

/// The invoice with `hash`, marked used.
pub open spec fn mark_used(book: Map<Seq<u8>, InvoiceView>, hash: Seq<u8>) -> Map<
    Seq<u8>,
    InvoiceView,
> {
    book.insert(hash, InvoiceView { used: true, ..book[hash] })
}

/// The entries of a list of invoices: each invoice's view under its identifier.
pub open spec fn entries(s: Seq<Invoice>) -> Seq<(Seq<u8>, InvoiceView)> {
    s.map_values(|inv: Invoice| (inv.hash@, inv@))
}

/// The minter's invoice book: each invoice is kept under its identifier,
/// and a counter of the invoices made so far.
///
/// The book is a list rather than a hash map: vstd specifies `HashMap` only
/// for keys that it knows to obey its key model (integers, `bool` and a few
/// others), and an identifier is a byte vector.
pub struct Minter {
    invoices: Vec<Invoice>,
    next_nonce: u64,
}

impl View for Minter {
    type V = Map<Seq<u8>, InvoiceView>;

    closed spec fn view(&self) -> Map<Seq<u8>, InvoiceView> {
        keyed(entries(self.invoices@))
    }
}

impl Minter {
    #[verifier::type_invariant]
    spec fn keys_distinct(self) -> bool {
        &&& distinct_keys(entries(self.invoices@))
        &&& per_invoice_subaccounts(keyed(entries(self.invoices@)))
    }

    /// The number that the next invoice made will carry.
    pub closed spec fn nonce(self) -> u64 {
        self.next_nonce
    }

    /// A minter with no invoices.
    pub fn new() -> (res: Minter)
        ensures
            res@ == Map::<Seq<u8>, InvoiceView>::empty(),
            res.nonce() == 0,
    {
        let m = Minter { invoices: Vec::new(), next_nonce: 0 };
        assert(entries(m.invoices@) =~= Seq::<(Seq<u8>, InvoiceView)>::empty());
        m
    }

    fn find(&self, hash: &[u8]) -> (res: Option<usize>)
        ensures
            match res {
                Some(i) => i < self.invoices@.len() && self.invoices@[i as int].hash@ == hash@,
                None => forall|j: int|
                    0 <= j < self.invoices@.len() ==> self.invoices@[j].hash@ != hash@,
            },
    {
        let mut i: usize = 0;
        while i < self.invoices.len()
            invariant
                i <= self.invoices@.len(),
                forall|j: int| 0 <= j < i ==> self.invoices@[j].hash@ != hash@,
            decreases self.invoices@.len() - i,
        {
            if bytes_equal(self.invoices[i].hash.as_slice(), hash) {
                return Some(i);
            }
            i = i + 1;
        }
        None
    }

    proof fn lemma_found(&self, i: int)
        requires
            self.keys_distinct(),
            0 <= i < self.invoices@.len(),
        ensures
            self@.contains_key(self.invoices@[i].hash@),
            self@[self.invoices@[i].hash@] == self.invoices@[i]@,
    {
        lemma_keyed_contains(entries(self.invoices@), i);
    }

    proof fn lemma_not_found(&self, hash: Seq<u8>)
        requires
            forall|j: int| 0 <= j < self.invoices@.len() ==> self.invoices@[j].hash@ != hash,
        ensures
            !self@.contains_key(hash),
    {
        let s = entries(self.invoices@);
        assert forall|j: int| 0 <= j < s.len() implies s[j].0 != hash by {
            assert(s[j].0 == self.invoices@[j].hash@);
        }
        lemma_keyed_absent(s, hash);
    }

    /// The invoice with identifier `hash`, if there is one. Every invoice
    /// of the book is paid into the subaccount named by its identifier.
    pub fn get(&self, hash: &[u8]) -> (res: Option<&Invoice>)
        ensures
            per_invoice_subaccounts(self@),
            match res {
                Some(inv) => self@.contains_key(hash@) && inv@ == self@[hash@],
                None => !self@.contains_key(hash@),
            },
    {
        proof {
            use_type_invariant(self);
        }
        match self.find(hash) {
            Some(i) => {
                proof {
                    self.lemma_found(i as int);
                }
                Some(&self.invoices[i])
            },
            None => {
                proof {
                    self.lemma_not_found(hash@);
                }
                None
            },
        }
    }

    /// Whether there is an invoice with identifier `hash`.
    pub fn contains(&self, hash: &[u8]) -> (res: bool)
        ensures
            res == self@.contains_key(hash@),
            per_invoice_subaccounts(self@),
    {
        self.get(hash).is_some()
    }

    /// Keeps `invoice` under its identifier, in place of any invoice that
    /// was kept there.
    fn insert(&mut self, invoice: Invoice)
        requires
            invoice@.to.subaccount == Some(invoice@.hash),
        ensures
            final(self)@ == old(self)@.insert(invoice@.hash, invoice@),
            final(self).nonce() == old(self).nonce(),
    {
        proof {
            use_type_invariant(&*self);
        }
        let found = self.find(invoice.hash.as_slice());
        let mut v: Vec<Invoice> = Vec::new();
        std::mem::swap(&mut v, &mut self.invoices);
        let ghost s = entries(v@);
        match found {
            Some(i) => {
                let ghost w = (invoice.hash@, invoice@);
                v.set(i, invoice);
                proof {
                    assert(entries(v@) =~= s.update(i as int, w));
                    lemma_keyed_update(s, i as int, w);
                }
            },
            None => {
                let ghost w = (invoice.hash@, invoice@);
                v.push(invoice);
                proof {
                    assert(entries(v@) =~= s.push(w));
                    assert forall|j: int| 0 <= j < s.len() implies s[j].0 != w.0 by {
                        assert(s[j].0 == old(self).invoices@[j].hash@);
                    }
                    lemma_keyed_push(s, w);
                }
            },
        }
        self.invoices = v;
    }

    /// Marks the invoice with identifier `hash` as used.
    pub fn mark_used(&mut self, hash: &[u8])
        requires
            old(self)@.contains_key(hash@),
        ensures
            final(self)@ == mark_used(old(self)@, hash@),
            final(self).nonce() == old(self).nonce(),
            per_invoice_subaccounts(final(self)@),
    {
        proof {
            use_type_invariant(&*self);
        }
        let found = self.find(hash);
        match found {
            Some(i) => {
                proof {
                    self.lemma_found(i as int);
                }
                let current = self.invoices[i].clone();
                let updated = Invoice { used: true, ..current };
                self.insert(updated);
            },
            None => {
                proof {
                    self.lemma_not_found(hash@);
                }
            },
        }
    }

    /// Makes the invoice that `caller` asks for, for `amount` and `operation`,
    /// at `time` (nanoseconds), payable into `canister`'s subaccount named by
    /// the invoice's identifier; keeps it under that identifier and returns
    /// it. The identifier is made with the minter's invoice counter, which
    /// advances on every call. Where the identifier is already kept, nothing
    /// is kept and the refusal is given: no invoice is ever overwritten.
    pub fn create_invoice(
        &mut self,
        amount: Amount,
        operation: String,
        caller: Principal,
        canister: Principal,
        time: u64,
    ) -> (res: Result<Invoice, String>)
        ensures
            final(self).nonce() == (if old(self).nonce() == u64::MAX {
                0
            } else {
                old(self).nonce() + 1
            }),
            per_invoice_subaccounts(final(self)@),
            match res {
                Ok(inv) => {
                    &&& inv@ == invoice_for(
                        amount@,
                        operation@,
                        caller@,
                        canister@,
                        time,
                        old(self).nonce(),
                    )
                    &&& inv@.hash.len() == 32
                    &&& !old(self)@.contains_key(inv@.hash)
                    &&& final(self)@ == old(self)@.insert(inv@.hash, inv@)
                    &&& forall|k: Seq<u8>|
                        #[trigger] old(self)@.contains_key(k) ==> old(self)@[k].to.subaccount
                            != inv@.to.subaccount
                },
                Err(e) => {
                    &&& old(self)@.contains_key(
                        invoice_digest(amount@, operation@, time, old(self).nonce()),
                    )
                    &&& e@ == identifier_in_use()
                    &&& final(self)@ == old(self)@
                },
            },
    {
        proof {
            use_type_invariant(&*self);
        }
        let nonce = self.next_nonce;
        self.next_nonce = if nonce == u64::MAX {
            0
        } else {
            nonce + 1
        };
        let hash = invoice_hash(&amount, &operation, time, nonce);
        if self.contains(hash.as_slice()) {
            return Err(String::from_str("This invoice identifier is already in use."));
        }
        let subaccount = slice_to_vec(hash.as_slice());
        let to = Account { owner: canister, subaccount: Some(subaccount) };
        let invoice = Invoice { to, amount, hash, used: false, operation, caller };
        let kept = invoice.clone();
        self.insert(kept);
        Ok(invoice)
    }
}

} // verus!
