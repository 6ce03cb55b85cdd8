use crate::error::WebhookError;
use hmac::{Hmac, Mac};
use sha2::Sha256;
use vstd::prelude::*;

verus! {

/// HMAC-SHA256 of `msg` under `key`, as computed by the `hmac` and `sha2` crates.
pub uninterp spec fn hmac_sha256(key: Seq<u8>, msg: Seq<u8>) -> Seq<u8>;

#[verifier::external_type_specification]
#[verifier::external_body]
pub struct ExInvalidLength(hmac::digest::InvalidLength);

/// Relies on `hmac::Hmac<sha2::Sha256>`: `new_from_slice` (which accepts keys of
/// any length), `update` and `finalize`; the digest is the 32 bytes of SHA-256.
#[verifier::external_body]
fn compute_hmac_sha256(key: &[u8], msg: &[u8]) -> (r: Result<Vec<u8>, hmac::digest::InvalidLength>)
    ensures
        r is Ok,
        r matches Ok(d) ==> d@ == hmac_sha256(key@, msg@) && d@.len() == 32,
{
    let mut mac = <Hmac<Sha256> as Mac>::new_from_slice(key)?;
    mac.update(msg);
    Ok(mac.finalize().into_bytes().to_vec())
}

/// Lower-case hexadecimal digit of a value below 16, as an ASCII byte.
pub open spec fn hex_digit(n: u8) -> u8 {
    if n < 10 {
        (48 + n) as u8
    } else {
        (87 + n) as u8
    }
}

/// Lower-case hexadecimal text of a byte string, two digits per byte.
pub open spec fn hex_of(d: Seq<u8>) -> Seq<u8>
    decreases d.len(),
{
    if d.len() == 0 {
        Seq::empty()
    } else {
        hex_of(d.drop_last()) + seq![hex_digit(d.last() / 16), hex_digit(d.last() % 16)]
    }
}

/// A byte that `http` accepts in header text: visible ASCII or a tab.
pub open spec fn is_header_text_byte(b: u8) -> bool {
    (32 <= b && b < 127) || b == 9
}

/// The header value decodes as text.
pub open spec fn is_header_text(h: Seq<u8>) -> bool {
    forall|i: int| 0 <= i < h.len() ==> is_header_text_byte(#[trigger] h[i])
}

pub open spec fn is_blank(b: u8) -> bool {
    b == 32 || b == 9
}

/// The scheme marker `sha256=` that precedes the digest in the header.
pub open spec fn sig_prefix() -> Seq<u8> {
    seq![115u8, 104u8, 97u8, 50u8, 53u8, 54u8, 61u8]
}

pub open spec fn trim_blank_end(s: Seq<u8>) -> Seq<u8>
    decreases s.len(),
{
    if s.len() > 0 && is_blank(s.last()) {
        trim_blank_end(s.drop_last())
    } else {
        s
    }
}

pub open spec fn trim_blank_start(s: Seq<u8>) -> Seq<u8>
    decreases s.len(),
{
    if s.len() > 0 && is_blank(s[0]) {
        trim_blank_start(s.skip(1))
    } else {
        s
    }
}

/// Removes every leading repetition of the scheme marker.
pub open spec fn strip_sig_prefix(s: Seq<u8>) -> Seq<u8>
    decreases s.len(),
{
    if s.len() >= 7 && s.take(7) == sig_prefix() {
        strip_sig_prefix(s.skip(7))
    } else {
        s
    }
}

/// The digest text a header value carries: surrounding blanks and the scheme
/// marker removed.
pub open spec fn received_signature(h: Seq<u8>) -> Seq<u8> {
    strip_sig_prefix(trim_blank_start(trim_blank_end(h)))
}

/// Outcome of authenticating a request body against its signature header.
pub open spec fn signature_verdict(
    secret: Option<Seq<u8>>,
    body: Seq<u8>,
    header: Option<Seq<u8>>,
) -> Result<(), WebhookError> {
    match header {
        None => Err(WebhookError::MissingSignature),
        Some(h) => if !is_header_text(h) {
            Err(WebhookError::UndecodableSignature)
        } else {
            match secret {
                None => Err(WebhookError::SecretUnavailable),
                Some(s) => if received_signature(h) == hex_of(hmac_sha256(s, body)) {
                    Ok(())
                } else {
                    Err(WebhookError::SignatureMismatch)
                },
            }
        },
    }
}

pub open spec fn view_bytes_opt(o: Option<Vec<u8>>) -> Option<Seq<u8>> {
    match o {
        Some(v) => Some(v@),
        None => None,
    }
}

/// Lower-case hexadecimal text of `d`.
pub fn hex_encode(d: &[u8]) -> (r: Vec<u8>)
    ensures
        r@ == hex_of(d@),
{
    let mut r: Vec<u8> = Vec::new();
    let mut i: usize = 0;
    while i < d.len()
        invariant
            i <= d@.len(),
            r@ == hex_of(d@.take(i as int)),
        decreases d@.len() - i,
    {
        let b: u8 = d[i];
        let hi: u8 = b / 16;
        let lo: u8 = b % 16;
        let dh: u8 = if hi < 10 { 48 + hi } else { 87 + hi };
        let dl: u8 = if lo < 10 { 48 + lo } else { 87 + lo };
        r.push(dh);
        r.push(dl);
        proof {
            assert(d@.take(i + 1).drop_last() =~= d@.take(i as int));
        }
        i = i + 1;
    }
    assert(d@.take(d@.len() as int) =~= d@);
    r
}

/// Whether the header value decodes as text.
pub fn header_is_text(h: &[u8]) -> (r: bool)
    ensures
        r == is_header_text(h@),
{
    let mut i: usize = 0;
    while i < h.len()
        invariant
            i <= h@.len(),
            forall|j: int| 0 <= j < i ==> is_header_text_byte(#[trigger] h@[j]),
        decreases h@.len() - i,
    {
        let b: u8 = h[i];
        if !((32 <= b && b < 127) || b == 9) {
            return false;
        }
        i = i + 1;
    }
    true
}

proof fn lemma_trim_end_range(s: Seq<u8>, e: int)
    requires
        0 <= e <= s.len(),
        forall|j: int| e <= j < s.len() ==> is_blank(#[trigger] s[j]),
    ensures
        trim_blank_end(s) == trim_blank_end(s.take(e)),
    decreases s.len() - e,
{
    if e < s.len() {
        assert(s.drop_last().take(e) =~= s.take(e));
        lemma_trim_end_range(s.drop_last(), e);
    } else {
        assert(s.take(e) =~= s);
    }
}

proof fn lemma_trim_start_range(s: Seq<u8>, a: int)
    requires
        0 <= a <= s.len(),
        forall|j: int| 0 <= j < a ==> is_blank(#[trigger] s[j]),
    ensures
        trim_blank_start(s) == trim_blank_start(s.skip(a)),
    decreases a,
{
    if a > 0 {
        assert(s.skip(1).skip(a - 1) =~= s.skip(a));
        lemma_trim_start_range(s.skip(1), a - 1);
    } else {
        assert(s.skip(0) =~= s);
    }
}

proof fn lemma_strip_range(s: Seq<u8>, a: int)
    requires
        0 <= a <= s.len(),
        a % 7 == 0,
        forall|k: int| 0 <= k < a / 7 ==> #[trigger] s.subrange(7 * k, 7 * k + 7) == sig_prefix(),
    ensures
        strip_sig_prefix(s) == strip_sig_prefix(s.skip(a)),
    decreases a,
{
    if a > 0 {
        let z: int = 0;
        assert(s.subrange(7 * z, 7 * z + 7) == sig_prefix());
        assert(s.take(7) =~= s.subrange(7 * z, 7 * z + 7));
        let t = s.skip(7);
        assert forall|k: int| 0 <= k < (a - 7) / 7 implies #[trigger] t.subrange(7 * k, 7 * k + 7)
            == sig_prefix() by {
            assert(s.subrange(7 * (k + 1), 7 * (k + 1) + 7) == sig_prefix());
            assert(t.subrange(7 * k, 7 * k + 7) =~= s.subrange(7 * (k + 1), 7 * (k + 1) + 7));
        }
        assert(t.skip(a - 7) =~= s.skip(a));
        lemma_strip_range(t, a - 7);
    } else {
        assert(s.skip(0) =~= s);
    }
}

/// The digest text carried by a header value.
pub fn received_digest(h: &[u8]) -> (r: Vec<u8>)
    ensures
        r@ == received_signature(h@),
{
    let mut e: usize = h.len();
    while e > 0 && (h[e - 1] == 32 || h[e - 1] == 9)
        invariant
            e <= h@.len(),
            forall|j: int| e <= j < h@.len() ==> is_blank(#[trigger] h@[j]),
        decreases e,
    {
        e = e - 1;
    }
    proof {
        lemma_trim_end_range(h@, e as int);
        assert(!(e > 0 && is_blank(h@.take(e as int).last())));
    }
    let ghost te = h@.take(e as int);
    let mut a: usize = 0;
    while a < e && (h[a] == 32 || h[a] == 9)
        invariant
            a <= e <= h@.len(),
            te == h@.take(e as int),
            forall|j: int| 0 <= j < a ==> is_blank(#[trigger] h@[j]),
        decreases e - a,
    {
        a = a + 1;
    }
    proof {
        assert forall|j: int| 0 <= j < a implies is_blank(#[trigger] te[j]) by {
            assert(te[j] == h@[j]);
        }
        lemma_trim_start_range(te, a as int);
        assert(te.skip(a as int) =~= h@.subrange(a as int, e as int));
    }
    let ghost ts = h@.subrange(a as int, e as int);
    let mut p: usize = a;
    while e - p >= 7 && h[p] == 115 && h[p + 1] == 104 && h[p + 2] == 97 && h[p + 3] == 50
        && h[p + 4] == 53 && h[p + 5] == 54 && h[p + 6] == 61
        invariant
            a <= p <= e <= h@.len(),
            ts == h@.subrange(a as int, e as int),
            (p - a) % 7 == 0,
            forall|k: int|
                0 <= k < (p - a) / 7 ==> #[trigger] ts.subrange(7 * k, 7 * k + 7) == sig_prefix(),
        decreases e - p,
    {
        proof {
            let k: int = (p - a) / 7;
            assert(ts.subrange(7 * k, 7 * k + 7) =~= sig_prefix());
        }
        p = p + 7;
    }
    proof {
        lemma_strip_range(ts, (p - a) as int);
        let rest = ts.skip((p - a) as int);
        assert(rest =~= h@.subrange(p as int, e as int));
        if rest.len() >= 7 && rest.take(7) == sig_prefix() {
            assert(rest.take(7)[0] == h@[p as int]);
            assert(rest.take(7)[1] == h@[p + 1]);
            assert(rest.take(7)[2] == h@[p + 2]);
            assert(rest.take(7)[3] == h@[p + 3]);
            assert(rest.take(7)[4] == h@[p + 4]);
            assert(rest.take(7)[5] == h@[p + 5]);
            assert(rest.take(7)[6] == h@[p + 6]);
        }
    }
    let mut r: Vec<u8> = Vec::new();
    let mut i: usize = p;
    while i < e
        invariant
            p <= i <= e <= h@.len(),
            r@ == h@.subrange(p as int, i as int),
        decreases e - i,
    {
        r.push(h[i]);
        proof {
            assert(r@ =~= h@.subrange(p as int, i + 1));
        }
        i = i + 1;
    }
    r
}

/// Equality of two byte strings that inspects every byte whatever the
/// position of the first difference.
pub fn constant_time_eq(a: &[u8], b: &[u8]) -> (r: bool)
    ensures
        r == (a@ == b@),
{
    if a.len() != b.len() {
        return false;
    }
    let mut miss: usize = 0;
    assert(a@.take(0) =~= b@.take(0));
    let mut i: usize = 0;
    while i < a.len()
        invariant
            i <= a@.len(),
            a@.len() == b@.len(),
            miss <= i,
            (miss == 0) == (a@.take(i as int) == b@.take(i as int)),
        decreases a@.len() - i,
    {
        let step: usize = (a[i] != b[i]) as usize;
        proof {
            let same = miss == 0;
            let eq_here = a@[i as int] == b@[i as int];
            if same && eq_here {
                assert(a@.take(i + 1) =~= b@.take(i + 1));
            }
            if !eq_here {
                assert(a@.take(i + 1)[i as int] != b@.take(i + 1)[i as int]);
            }
            if !same {
                if a@.take(i + 1) == b@.take(i + 1) {
                    assert forall|j: int| 0 <= j < i implies a@.take(i as int)[j] == b@.take(
                        i as int,
                    )[j] by {
                        assert(a@.take(i + 1)[j] == b@.take(i + 1)[j]);
                    }
                    assert(a@.take(i as int) =~= b@.take(i as int));
                }
            }
        }
        miss = miss + step;
        i = i + 1;
    }
    proof {
        assert(a@.take(a@.len() as int) =~= a@);
        assert(b@.take(b@.len() as int) =~= b@);
    }
    miss == 0
}

/// Authenticates `body` against the signature header with the shared secret:
/// the header must be present and textual, the secret available, and the
/// header's digest equal to the hexadecimal HMAC-SHA256 of the body.
pub fn verify_signature(secret: &Option<Vec<u8>>, body: &[u8], header: &Option<Vec<u8>>) -> (r:
    Result<(), WebhookError>)
    ensures
        r == signature_verdict(view_bytes_opt(*secret), body@, view_bytes_opt(*header)),
{
    let h = match header {
        None => {
            return Err(WebhookError::MissingSignature);
        },
        Some(h) => h,
    };
    if !header_is_text(h.as_slice()) {
        return Err(WebhookError::UndecodableSignature);
    }
    let s = match secret {
        None => {
            return Err(WebhookError::SecretUnavailable);
        },
        Some(s) => s,
    };
    let digest = match compute_hmac_sha256(s.as_slice(), body) {
        Ok(d) => d,
        Err(_) => {
            return Err(WebhookError::SecretUnavailable);
        },
    };
    let computed = hex_encode(digest.as_slice());
    let received = received_digest(h.as_slice());
    if constant_time_eq(computed.as_slice(), received.as_slice()) {
        Ok(())
    } else {
        Err(WebhookError::SignatureMismatch)
    }
}

pub open spec fn is_hex_char(b: u8) -> bool {
    (48 <= b && b <= 57) || (97 <= b && b <= 102)
}

proof fn lemma_hex_shape(d: Seq<u8>)
    ensures
        hex_of(d).len() == 2 * d.len(),
        forall|i: int| 0 <= i < hex_of(d).len() ==> is_hex_char(#[trigger] hex_of(d)[i]),
    decreases d.len(),
{
    if d.len() > 0 {
        lemma_hex_shape(d.drop_last());
        let p = hex_of(d.drop_last());
        let t = seq![hex_digit(d.last() / 16), hex_digit(d.last() % 16)];
        assert forall|i: int| 0 <= i < hex_of(d).len() implies is_hex_char(#[trigger] hex_of(d)[i]) by {
            if i < p.len() {
                assert(hex_of(d)[i] == p[i]);
            } else {
                assert(hex_of(d)[i] == t[i - p.len()]);
            }
        }
    }
}

proof fn lemma_hex_injective(a: Seq<u8>, b: Seq<u8>)
    requires
        hex_of(a) == hex_of(b),
    ensures
        a == b,
    decreases a.len(),
{
    lemma_hex_shape(a);
    lemma_hex_shape(b);
    if a.len() > 0 {
        let n = hex_of(a).len();
        assert(hex_of(a).take(n - 2) =~= hex_of(a.drop_last()));
        assert(hex_of(b).take(n - 2) =~= hex_of(b.drop_last()));
        lemma_hex_injective(a.drop_last(), b.drop_last());
        assert(hex_of(a)[n - 2] == hex_digit(a.last() / 16));
        assert(hex_of(b)[n - 2] == hex_digit(b.last() / 16));
        assert(hex_of(a)[n - 1] == hex_digit(a.last() % 16));
        assert(hex_of(b)[n - 1] == hex_digit(b.last() % 16));
        assert(a.last() / 16 == b.last() / 16);
        assert(a.last() % 16 == b.last() % 16);
        assert(a.last() == b.last());
        assert(a =~= a.drop_last().push(a.last()));
        assert(b =~= b.drop_last().push(b.last()));
    } else {
        assert(a =~= b);
    }
}

proof fn lemma_hex_is_received_as_is(d: Seq<u8>)
    ensures
        is_header_text(hex_of(d)),
        is_header_text(sig_prefix() + hex_of(d)),
        received_signature(hex_of(d)) == hex_of(d),
        received_signature(sig_prefix() + hex_of(d)) == hex_of(d),
{
    lemma_hex_shape(d);
    let h = hex_of(d);
    let ph = sig_prefix() + h;
    assert forall|i: int| 0 <= i < ph.len() implies is_header_text_byte(#[trigger] ph[i]) by {
        if i >= 7 {
            assert(ph[i] == h[i - 7]);
        }
    }
    if h.len() > 0 {
        assert(is_hex_char(h[0]));
        assert(is_hex_char(h[h.len() - 1]));
    }
    if h.len() >= 7 {
        assert(h.take(7)[0] == h[0]);
    }
    assert(trim_blank_end(h) == h);
    assert(trim_blank_start(h) == h);
    assert(strip_sig_prefix(h) == h);
    if h.len() > 0 {
        assert(ph.last() == h[h.len() - 1]);
    }
    assert(trim_blank_end(ph) == ph);
    assert(trim_blank_start(ph) == ph);
    assert(ph.take(7) =~= sig_prefix());
    assert(ph.skip(7) =~= h);
}

/// A signature header that carries the hexadecimal HMAC-SHA256 of the body
/// under the shared secret, with or without the `sha256=` marker, passes
/// verification.
pub proof fn lemma_own_signature_accepted(secret: Seq<u8>, body: Seq<u8>)
    ensures
        signature_verdict(Some(secret), body, Some(hex_of(hmac_sha256(secret, body)))) == Ok::<
            (),
            WebhookError,
        >(()),
        signature_verdict(
            Some(secret),
            body,
            Some(sig_prefix() + hex_of(hmac_sha256(secret, body))),
        ) == Ok::<(), WebhookError>(()),
{
    lemma_hex_is_received_as_is(hmac_sha256(secret, body));
}

/// A header signed for one secret and body is refused for any secret and
/// body whose HMAC-SHA256 differs.
pub proof fn lemma_other_digest_rejected(
    secret: Seq<u8>,
    body: Seq<u8>,
    other_secret: Seq<u8>,
    other_body: Seq<u8>,
)
    requires
        hmac_sha256(other_secret, other_body) != hmac_sha256(secret, body),
    ensures
        signature_verdict(
            Some(other_secret),
            other_body,
            Some(sig_prefix() + hex_of(hmac_sha256(secret, body))),
        ) == Err::<(), WebhookError>(WebhookError::SignatureMismatch),
        signature_verdict(
            Some(other_secret),
            other_body,
            Some(hex_of(hmac_sha256(secret, body))),
        ) == Err::<(), WebhookError>(WebhookError::SignatureMismatch),
{
    lemma_hex_is_received_as_is(hmac_sha256(secret, body));
    if hex_of(hmac_sha256(secret, body)) == hex_of(hmac_sha256(other_secret, other_body)) {
        lemma_hex_injective(hmac_sha256(secret, body), hmac_sha256(other_secret, other_body));
    }
}

} // verus!
