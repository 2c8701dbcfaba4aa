//! Invoice digests: SHA-256 of a text made of the invoice's amount, its
//! operation and the time of its creation.

use vstd::prelude::*;
use vstd::utf8::encode_utf8;
use sha2::Digest;
use crate::decimal::{decimal, decimal_string, is_digit_char, lemma_decimal_digits, lemma_decimal_injective};
use crate::amount::{Amount, is_decimal_text, text_digits, value};

verus! {

/// The SHA-256 digest of `data`.
pub uninterp spec fn sha256_digest(data: Seq<u8>) -> Seq<u8>;

/// What `{:?}` writes for a string `s`: `s` in double quotes, with escapes.
pub uninterp spec fn str_debug(s: Seq<char>) -> Seq<char>;

/// A character that `{:?}` writes unescaped inside a string.
pub open spec fn is_plain_char(c: char) -> bool {
    ('a' <= c && c <= 'z') || ('A' <= c && c <= 'Z') || ('0' <= c && c <= '9')
}

/// Calls `sha2::Sha256::digest`. Claims that the result is the SHA-256
/// digest of `data` (a function of `data` alone, left unnamed here) and
/// that it is 32 bytes long, as the output size of `Sha256` is.
#[verifier::external_body]
fn sha256(data: &[u8]) -> (res: Vec<u8>)
    ensures
        res@ == sha256_digest(data@),
        res@.len() == 32,
{
    sha2::Sha256::digest(data).to_vec()
}

/// Calls `candid::Nat::parse` on decimal text and `candid::Nat`'s `Debug`
/// (derived on `Nat(BigUint)`, and `BigUint` writes its decimal digits):
/// claims that the text is `Nat(`, the decimal digits of the number that
/// `digits` stands for, and `)`.
#[verifier::external_body]
fn nat_debug(digits: &[u8]) -> (res: String)
    requires
        is_decimal_text(digits@),
    ensures
        res@ == seq!['N', 'a', 't', '('] + decimal(value(text_digits(digits@))) + seq![')'],
{
    match candid::Nat::parse(digits) {
        Ok(n) => format!("{:?}", n),
        Err(_) => String::new(),
    }
}

/// Calls `str`'s `Debug`: claims that the text is named `str_debug` of the
/// string, that it opens and closes with a double quote (as `Debug` for `str`
/// always writes one at each end), and that a string made only of ASCII
/// letters and digits is written between double quotes and nothing else.
/// How other characters are escaped is left unsaid.
#[verifier::external_body]
fn debug_quoted(s: &str) -> (res: String)
    ensures
        res@ == str_debug(s@),
        res@.len() >= 2,
        res@[0] == '"',
        res@[res@.len() - 1] == '"',
        (forall|i: int| 0 <= i < s@.len() ==> is_plain_char(#[trigger] s@[i])) ==> res@ == seq!['"']
            + s@ + seq!['"'],
{
    format!("{:?}", s)
}

/// The text that is hashed to make an invoice's identifier: `{:?}` of the
/// amount (as a candid `Nat`), of the operation and of the time, then `#`
/// and the minter's invoice counter, which tells apart invoices made alike
/// in the same round.
pub open spec fn hash_preimage(amount: nat, operation: Seq<char>, time: u64, nonce: u64) -> Seq<
    char,
> {
    seq!['N', 'a', 't', '('] + decimal(amount) + seq![')'] + str_debug(operation) + decimal(
        time as nat,
    ) + seq!['#'] + decimal(nonce as nat)
}

/// Text that ends with a double quote, as every `{:?}` of a string does.
pub open spec fn ends_with_quote(s: Seq<char>) -> bool {
    s.len() >= 1 && s[s.len() - 1] == '"'
}

proof fn lemma_split_at_last(u: Seq<char>, v: Seq<char>, u2: Seq<char>, v2: Seq<char>, c: char)
    requires
        u + v == u2 + v2,
        u.len() >= 1,
        u2.len() >= 1,
        u[u.len() - 1] == c,
        u2[u2.len() - 1] == c,
        forall|i: int| 0 <= i < v.len() ==> #[trigger] v[i] != c,
        forall|i: int| 0 <= i < v2.len() ==> #[trigger] v2[i] != c,
    ensures
        u == u2,
        v == v2,
{
    let w = u + v;
    let w2 = u2 + v2;
    assert(w.len() == u.len() + v.len());
    assert(w2.len() == u2.len() + v2.len());
    assert(w.len() == w2.len());
    if v.len() < v2.len() {
        let k = u.len() - 1;
        assert(u2.len() <= k);
        assert(w[k] == c);
        assert(w2[k] == v2[k - u2.len()]);
    } else if v2.len() < v.len() {
        let k = u2.len() - 1;
        assert(u.len() <= k);
        assert(w2[k] == c);
        assert(w[k] == v[k - u.len()]);
    }
    assert(u =~= w.subrange(0, u.len() as int));
    assert(u2 =~= w2.subrange(0, u2.len() as int));
    assert(v =~= w.subrange(u.len() as int, w.len() as int));
    assert(v2 =~= w2.subrange(u2.len() as int, w2.len() as int));
}

proof fn lemma_split_at_first(u: Seq<char>, v: Seq<char>, u2: Seq<char>, v2: Seq<char>, c: char)
    requires
        u + v == u2 + v2,
        v.len() >= 1,
        v2.len() >= 1,
        v[0] == c,
        v2[0] == c,
        forall|i: int| 0 <= i < u.len() ==> #[trigger] u[i] != c,
        forall|i: int| 0 <= i < u2.len() ==> #[trigger] u2[i] != c,
    ensures
        u == u2,
        v == v2,
{
    let w = u + v;
    let w2 = u2 + v2;
    if u.len() < u2.len() {
        assert(w[u.len() as int] == c);
        assert(w2[u.len() as int] == u2[u.len() as int]);
    } else if u2.len() < u.len() {
        assert(w2[u2.len() as int] == c);
        assert(w[u2.len() as int] == u[u2.len() as int]);
    }
    assert(u =~= w.subrange(0, u.len() as int));
    assert(u2 =~= w2.subrange(0, u2.len() as int));
    assert(v =~= w.subrange(u.len() as int, w.len() as int));
    assert(v2 =~= w2.subrange(u2.len() as int, w2.len() as int));
}

/// The text hashed for an identifier gives back the amount, the time and the
/// invoice counter it was made from (and the `{:?}` text of the
/// operation): two invoices that differ in any of these are hashed from
/// different texts.
pub proof fn lemma_preimage_injective(
    amount: nat,
    operation: Seq<char>,
    time: u64,
    nonce: u64,
    amount2: nat,
    operation2: Seq<char>,
    time2: u64,
    nonce2: u64,
)
    requires
        ends_with_quote(str_debug(operation)),
        ends_with_quote(str_debug(operation2)),
        hash_preimage(amount, operation, time, nonce) == hash_preimage(
            amount2,
            operation2,
            time2,
            nonce2,
        ),
    ensures
        amount == amount2,
        time == time2,
        nonce == nonce2,
        str_debug(operation) == str_debug(operation2),
{
    let p = seq!['N', 'a', 't', '('];
    let d = decimal(amount);
    let d2 = decimal(amount2);
    let r = seq![')'];
    let q = str_debug(operation);
    let q2 = str_debug(operation2);
    let t = decimal(time as nat);
    let t2 = decimal(time2 as nat);
    let h = seq!['#'];
    let n = decimal(nonce as nat);
    let n2 = decimal(nonce2 as nat);
    lemma_decimal_digits(amount);
    lemma_decimal_digits(amount2);
    lemma_decimal_digits(time as nat);
    lemma_decimal_digits(time2 as nat);
    lemma_decimal_digits(nonce as nat);
    lemma_decimal_digits(nonce2 as nat);
    let x = p + d + r + q + t;
    let x2 = p + d2 + r + q2 + t2;
    // The counter: after the last '#'.
    assert forall|i: int| 0 <= i < n.len() implies #[trigger] n[i] != '#' by {
        assert(is_digit_char(n[i]));
    }
    assert forall|i: int| 0 <= i < n2.len() implies #[trigger] n2[i] != '#' by {
        assert(is_digit_char(n2[i]));
    }
    lemma_split_at_last(x + h, n, x2 + h, n2, '#');
    lemma_decimal_injective(nonce as nat, nonce2 as nat);
    assert(x =~= (x + h).drop_last());
    assert(x2 =~= (x2 + h).drop_last());
    // The time: after the closing quote of the operation.
    let y = p + d + r + q;
    let y2 = p + d2 + r + q2;
    assert(y[y.len() - 1] == q[q.len() - 1]);
    assert(y2[y2.len() - 1] == q2[q2.len() - 1]);
    assert forall|i: int| 0 <= i < t.len() implies #[trigger] t[i] != '"' by {
        assert(is_digit_char(t[i]));
    }
    assert forall|i: int| 0 <= i < t2.len() implies #[trigger] t2[i] != '"' by {
        assert(is_digit_char(t2[i]));
    }
    lemma_split_at_last(y, t, y2, t2, '"');
    lemma_decimal_injective(time as nat, time2 as nat);
    // The amount: before the first ')'.
    let z = p + d;
    let z2 = p + d2;
    assert(y =~= z + (r + q));
    assert(y2 =~= z2 + (r + q2));
    assert forall|i: int| 0 <= i < z.len() implies #[trigger] z[i] != ')' by {
        if i >= 4 {
            assert(z[i] == d[i - 4]);
            assert(is_digit_char(d[i - 4]));
        }
    }
    assert forall|i: int| 0 <= i < z2.len() implies #[trigger] z2[i] != ')' by {
        if i >= 4 {
            assert(z2[i] == d2[i - 4]);
            assert(is_digit_char(d2[i - 4]));
        }
    }
    lemma_split_at_first(z, r + q, z2, r + q2, ')');
    assert(d =~= z.subrange(4, z.len() as int));
    assert(d2 =~= z2.subrange(4, z2.len() as int));
    lemma_decimal_injective(amount, amount2);
    assert(q =~= (r + q).subrange(1, (r + q).len() as int));
    assert(q2 =~= (r + q2).subrange(1, (r + q2).len() as int));
}

/// The identifier of the invoice for `amount` and `operation` created at
/// `time` as the minter's invoice number `nonce`.
pub open spec fn invoice_digest(amount: nat, operation: Seq<char>, time: u64, nonce: u64) -> Seq<
    u8,
> {
    sha256_digest(encode_utf8(hash_preimage(amount, operation, time, nonce)))
}

/// An identifier is the SHA-256 digest of the UTF-8 bytes of its text.
pub proof fn lemma_invoice_digest(amount: nat, operation: Seq<char>, time: u64, nonce: u64)
    ensures
        invoice_digest(amount, operation, time, nonce) == sha256_digest(
            encode_utf8(hash_preimage(amount, operation, time, nonce)),
        ),
{
}

/// The identifier of the invoice for `amount` and `operation` created at
/// `time` (nanoseconds) as invoice number `nonce`: the SHA-256 digest of the
/// UTF-8 text of [`hash_preimage`], 32 bytes.
pub fn invoice_hash(amount: &Amount, operation: &String, time: u64, nonce: u64) -> (res: Vec<u8>)
    ensures
        res@ == invoice_digest(amount@, operation@, time, nonce),
        res@.len() == 32,
        ends_with_quote(str_debug(operation@)),
{
    let text = amount.to_decimal_ascii();
    let mut input = nat_debug(text.as_slice());
    let op = debug_quoted(operation.as_str());
    input.append(op.as_str());
    let t = decimal_string(time as u128);
    input.append(t.as_str());
    proof {
        reveal_strlit("#");
    }
    input.append("#");
    let n = decimal_string(nonce as u128);
    input.append(n.as_str());
    assert(input@ =~= hash_preimage(amount@, operation@, time, nonce));
    sha256(input.as_str().as_bytes())
}

} // verus!
