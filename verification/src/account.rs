//! Principals and ledger accounts.
//!
//! A principal is held as its raw bytes: this is all that the invoice logic
//! reads of it (to compare callers and to derive deposit subaccounts).
//! Conversion to and from the canister SDK's principal type happens at the
//! edge of the canister.

use vstd::prelude::*;

verus! {

/// The most bytes a principal can have.
pub const MAX_PRINCIPAL_LEN: usize = 29;

/// The identity of a caller or a canister, as its raw bytes (at most 29).
pub struct Principal {
    bytes: Vec<u8>,
}

impl View for Principal {
    type V = Seq<u8>;

    closed spec fn view(&self) -> Seq<u8> {
        self.bytes@
    }
}

impl Principal {
    #[verifier::type_invariant]
    spec fn fits(self) -> bool {
        self.bytes@.len() <= MAX_PRINCIPAL_LEN
    }

    /// The principal with the given bytes, or `None` where there are more than 29.
    pub fn from_slice(bytes: &[u8]) -> (res: Option<Principal>)
        ensures
            res is Some <==> bytes@.len() <= MAX_PRINCIPAL_LEN,
            res matches Some(p) ==> p@ == bytes@,
    {
        if bytes.len() <= MAX_PRINCIPAL_LEN {
            let v = slice_to_vec(bytes);
            Some(Principal { bytes: v })
        } else {
            None
        }
    }

    /// The bytes of the principal.
    pub fn as_slice(&self) -> (res: &[u8])
        ensures
            res@ == self@,
            res@.len() <= MAX_PRINCIPAL_LEN,
    {
        proof {
            use_type_invariant(self);
        }
        self.bytes.as_slice()
    }

    /// Whether two principals are the same (have the same bytes).
    pub fn equals(&self, other: &Principal) -> (res: bool)
        ensures
            res == (self@ == other@),
    {
        bytes_equal(self.bytes.as_slice(), other.bytes.as_slice())
    }
}

impl Clone for Principal {
    fn clone(&self) -> (res: Self)
        ensures
            res@ == self@,
    {
        proof {
            use_type_invariant(self);
        }
        let bytes = self.bytes.clone();
        assert(bytes@ =~= self.bytes@);
        Principal { bytes }
    }
}

/// Whether two byte strings are equal.
pub fn bytes_equal(a: &[u8], b: &[u8]) -> (res: bool)
    ensures
        res == (a@ == b@),
{
    if a.len() != b.len() {
        return false;
    }
    let mut i: usize = 0;
    while i < a.len()
        invariant
            a.len() == b.len(),
            i <= a.len(),
            forall|j: int| 0 <= j < i ==> a@[j] == b@[j],
        decreases a.len() - i,
    {
        if a[i] != b[i] {
            return false;
        }
        i = i + 1;
    }
    assert(a@ =~= b@);
    true
}

/// A vector holding a copy of `bytes`.
pub fn slice_to_vec(bytes: &[u8]) -> (res: Vec<u8>)
    ensures
        res@ == bytes@,
{
    let mut v: Vec<u8> = Vec::new();
    let mut i: usize = 0;
    while i < bytes.len()
        invariant
            i <= bytes@.len(),
            v@ == bytes@.subrange(0, i as int),
        decreases bytes@.len() - i,
    {
        v.push(bytes[i]);
        i = i + 1;
        assert(v@ =~= bytes@.subrange(0, i as int));
    }
    assert(bytes@.subrange(0, bytes@.len() as int) =~= bytes@);
    v
}

/// What an account is, as plain values.
pub struct AccountView {
    pub owner: Seq<u8>,
    pub subaccount: Option<Seq<u8>>,
}

/// A ledger account: an owner and an optional subaccount.
pub struct Account {
    pub owner: Principal,
    pub subaccount: Option<Vec<u8>>,
}

/// The view of an optional byte vector.
pub open spec fn bytes_opt_view(o: Option<Vec<u8>>) -> Option<Seq<u8>> {
    match o {
        Some(v) => Some(v@),
        None => None,
    }
}

impl View for Account {
    type V = AccountView;

    open spec fn view(&self) -> AccountView {
        AccountView { owner: self.owner@, subaccount: bytes_opt_view(self.subaccount) }
    }
}

impl Clone for Account {
    fn clone(&self) -> (res: Self)
        ensures
            res@ == self@,
    {
        let subaccount = match &self.subaccount {
            Some(s) => {
                let c = s.clone();
                assert(c@ =~= s@);
                Some(c)
            },
            None => None,
        };
        Account { owner: self.owner.clone(), subaccount }
    }
}

} // verus!
