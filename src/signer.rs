//! The signer: the headers that authenticate each request.
use vstd::prelude::*;
use vstd::utf8::encode_utf8;

use crate::text::{decimal, digit_char, to_decimal};
use crate::AcmGroup;

verus! {

/// What HMAC-SHA1 of `message` keyed by `key` is.
pub uninterp spec fn hmac_sha1_of(key: Seq<u8>, message: Seq<u8>) -> Seq<u8>;

/// Relies on hmacsha1::hmac_sha1: the HMAC-SHA1 of the message under the
/// key, which depends on the two alone.
#[verifier::external_body]
fn hmac_sha1(key: &[u8], message: &[u8]) -> (r: Vec<u8>)
    ensures
        r@ == hmac_sha1_of(key@, message@),
{
    hmacsha1::hmac_sha1(key, message).to_vec()
}

/// What the standard base64 text of some bytes is.
pub uninterp spec fn base64_of(data: Seq<u8>) -> Seq<char>;

/// Relies on base64::encode: the standard, padded base64 text of the bytes,
/// which depends on the bytes alone.
#[verifier::external_body]
fn base64_encode(data: &[u8]) -> (r: String)
    ensures
        r@ == base64_of(data@),
{
    base64::encode(data)
}

/// How long the server may hold a long poll, in milliseconds, as sent.
pub open spec fn long_polling_timeout() -> Seq<char> {
    "30000"@
}

/// The text that is signed: namespace, group and timestamp joined by `+`.
pub open spec fn sign_message(namespace: Seq<char>, group: Seq<char>, timestamp: nat) -> Seq<char> {
    namespace + "+"@ + group + "+"@ + decimal(timestamp)
}

/// The base64 of the HMAC-SHA1 of the signed text, keyed by the secret key.
pub open spec fn signature_spec(secret_key: Seq<char>, namespace: Seq<char>, group: Seq<char>, timestamp: nat) -> Seq<char> {
    base64_of(hmac_sha1_of(encode_utf8(secret_key), encode_utf8(sign_message(namespace, group, timestamp))))
}

/// The headers of a request signed at `timestamp` (milliseconds since the
/// Unix epoch).
pub open spec fn headers_spec(g: &AcmGroup, timestamp: nat) -> Seq<(Seq<char>, Seq<char>)> {
    seq![
        ("Spas-AccessKey"@, g.access_key@),
        ("timeStamp"@, decimal(timestamp)),
        ("Spas-Signature"@, signature_spec(g.secret_key@, g.namespace@, g.group@, timestamp)),
        ("longPullingTimeout"@, long_polling_timeout()),
    ]
}

/// The views of a list of name/value pairs.
pub open spec fn pair_views(v: Seq<(String, String)>) -> Seq<(Seq<char>, Seq<char>)> {
    v.map_values(|p: (String, String)| (p.0@, p.1@))
}

/// Signs namespace, group and timestamp with the secret key.
pub fn signature(secret_key: &str, namespace: &str, group: &str, timestamp: u64) -> (r: String)
    ensures
        r@ == signature_spec(secret_key@, namespace@, group@, timestamp as nat),
{
    let mut message = String::from_str(namespace);
    message.append("+");
    message.append(group);
    message.append("+");
    message.append(to_decimal(timestamp).as_str());
    let digest = hmac_sha1(secret_key.as_bytes(), message.as_str().as_bytes());
    base64_encode(digest.as_slice())
}

/// The headers that authenticate a request made at `timestamp`
/// (milliseconds since the Unix epoch).
pub fn headers(g: &AcmGroup, timestamp: u64) -> (r: Vec<(String, String)>)
    ensures
        pair_views(r@) == headers_spec(g, timestamp as nat),
{
    let mut r: Vec<(String, String)> = Vec::new();
    r.push((String::from_str("Spas-AccessKey"), g.access_key.clone()));
    r.push((String::from_str("timeStamp"), to_decimal(timestamp)));
    r.push(
        (
            String::from_str("Spas-Signature"),
            signature(g.secret_key.as_str(), g.namespace.as_str(), g.group.as_str(), timestamp),
        ),
    );
    r.push((String::from_str("longPullingTimeout"), String::from_str("30000")));
    assert(pair_views(r@) =~= headers_spec(g, timestamp as nat));
    r
}

pub proof fn lemma_decimal_nonempty(n: nat)
    ensures
        decimal(n).len() >= 1,
    decreases n,
{
    if n >= 10 {
        lemma_decimal_nonempty(n / 10);
    }
}

/// Distinct numbers have distinct decimal notations.
pub proof fn lemma_decimal_injective(n: nat, m: nat)
    requires
        decimal(n) == decimal(m),
    ensures
        n == m,
    decreases n,
{
    if n < 10 && m < 10 {
        assert(decimal(n)[0] == digit_char(n));
        assert(decimal(m)[0] == digit_char(m));
    } else if n < 10 {
        lemma_decimal_nonempty(m / 10);
        assert(decimal(m).len() >= 2);
    } else if m < 10 {
        lemma_decimal_nonempty(n / 10);
        assert(decimal(n).len() >= 2);
    } else {
        assert(decimal(n).last() == digit_char(n % 10));
        assert(decimal(m).last() == digit_char(m % 10));
        assert(n % 10 == m % 10);
        assert(decimal(n).drop_last() =~= decimal(n / 10));
        assert(decimal(m).drop_last() =~= decimal(m / 10));
        lemma_decimal_injective(n / 10, m / 10);
    }
}

/// Where neither namespace nor group holds a `+`, the signed text tells
/// namespace, group and timestamp apart: a change to any of them changes
/// what is signed.
pub proof fn lemma_sign_message_injective(
    ns1: Seq<char>,
    g1: Seq<char>,
    t1: nat,
    ns2: Seq<char>,
    g2: Seq<char>,
    t2: nat,
)
    requires
        !ns1.contains('+'),
        !ns2.contains('+'),
        !g1.contains('+'),
        !g2.contains('+'),
        sign_message(ns1, g1, t1) == sign_message(ns2, g2, t2),
    ensures
        ns1 == ns2,
        g1 == g2,
        t1 == t2,
{
    reveal_strlit("+");
    let m = sign_message(ns1, g1, t1);
    let d1 = decimal(t1);
    let d2 = decimal(t2);
    assert(m =~= ns1 + seq!['+'] + g1 + seq!['+'] + d1);
    assert(m =~= ns2 + seq!['+'] + g2 + seq!['+'] + d2);
    if ns1.len() < ns2.len() {
        assert(m[ns1.len() as int] == '+');
        assert(ns2[ns1.len() as int] == '+');
    }
    if ns2.len() < ns1.len() {
        assert(m[ns2.len() as int] == '+');
        assert(ns1[ns2.len() as int] == '+');
    }
    assert(ns1 =~= m.take(ns1.len() as int));
    assert(ns2 =~= m.take(ns2.len() as int));
    let o: int = ns1.len() as int + 1;
    if g1.len() < g2.len() {
        assert(m[o + g1.len()] == '+');
        assert(g2[g1.len() as int] == '+');
    }
    if g2.len() < g1.len() {
        assert(m[o + g2.len()] == '+');
        assert(g1[g2.len() as int] == '+');
    }
    assert(g1 =~= m.subrange(o, o + g1.len() as int));
    assert(g2 =~= m.subrange(o, o + g2.len() as int));
    let p: int = o + g1.len() as int + 1;
    assert(d1 =~= m.subrange(p, m.len() as int));
    assert(d2 =~= m.subrange(p, m.len() as int));
    lemma_decimal_injective(t1, t2);
}

} // verus!
