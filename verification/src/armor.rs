//! ASCII armor for a PGP message (RFC 4880, section 6): a fixed header line,
//! a blank line, the base64 payload wrapped at 64 symbols per line, a
//! checksum line holding `=` and the base64 CRC-24 of the raw payload, and a
//! fixed footer line. Lines end with a line feed. Decoding is strict — it
//! accepts exactly what encoding produces — so the two invert each other.

use vstd::prelude::*;

use crate::base64::{
    b64_dec,
    b64_decode_bytes,
    b64_encode,
    b64_encode_bytes,
    b64_group,
    b64_valid,
    lemma_b64_encode_sym,
    lemma_b64_round_trip,
};
use crate::bytes::{append_bytes, vec_eq_bytes};
use crate::crc24::{crc24, crc24_bytes, crc24_of, crc24_to_bytes};

verus! {

/// The payload bytes cut into lines of 64, each line closed by a line feed.
pub open spec fn wrap64(s: Seq<u8>) -> Seq<u8>
    decreases s.len(),
{
    if s.len() == 0 {
        Seq::empty()
    } else if s.len() <= 64 {
        s + seq![10u8]
    } else {
        s.take(64) + seq![10u8] + wrap64(s.skip(64))
    }
}

/// Wrapping distributes over splitting the input after whole lines.
pub proof fn lemma_wrap64_concat(t: Seq<u8>, r: Seq<u8>)
    requires
        t.len() % 64 == 0,
    ensures
        wrap64(t + r) == wrap64(t) + wrap64(r),
    decreases t.len(),
{
    if t.len() == 0 {
        assert(t + r =~= r);
        assert(wrap64(t) + wrap64(r) =~= wrap64(r));
    } else if r.len() == 0 {
        assert(t + r =~= t);
        assert(wrap64(t) + wrap64(r) =~= wrap64(t));
    } else {
        let u = t + r;
        assert(u.len() > 64);
        assert(u.take(64) =~= t.take(64));
        assert(u.skip(64) =~= t.skip(64) + r);
        lemma_wrap64_concat(t.skip(64), r);
        if t.len() == 64 {
            assert(t.skip(64) =~= Seq::<u8>::empty());
            assert(wrap64(Seq::<u8>::empty()) + wrap64(r) =~= wrap64(r));
            assert(u.take(64) =~= t);
            assert(wrap64(u) == u.take(64) + seq![10u8] + wrap64(u.skip(64)));
            assert(wrap64(t) == t + seq![10u8]);
            assert((t + seq![10u8]) + wrap64(r) =~= t + seq![10u8] + wrap64(r));
        } else {
            assert(wrap64(u) == u.take(64) + seq![10u8] + wrap64(u.skip(64)));
            assert(wrap64(t) == t.take(64) + seq![10u8] + wrap64(t.skip(64)));
            assert((t.take(64) + seq![10u8] + wrap64(t.skip(64))) + wrap64(r) =~= t.take(64)
                + seq![10u8] + (wrap64(t.skip(64)) + wrap64(r)));
        }
    }
}

/// No byte of the sequence is a line feed.
pub open spec fn no_lf(s: Seq<u8>) -> bool {
    forall|i: int| 0 <= i < s.len() ==> s[i] != 10
}

/// The sequence with every line feed removed.
pub open spec fn strip_lf(s: Seq<u8>) -> Seq<u8>
    decreases s.len(),
{
    if s.len() == 0 {
        Seq::empty()
    } else if s[0] == 10 {
        strip_lf(s.drop_first())
    } else {
        seq![s[0]] + strip_lf(s.drop_first())
    }
}

/// The removal on a single byte: a line feed vanishes, anything else stays.
pub proof fn lemma_strip_lf_single(c: u8)
    ensures
        strip_lf(seq![c]) == if c == 10 {
            Seq::<u8>::empty()
        } else {
            seq![c]
        },
{
    assert(seq![c].drop_first() =~= Seq::<u8>::empty());
    assert(strip_lf(Seq::<u8>::empty()) == Seq::<u8>::empty());
    if c != 10 {
        assert(strip_lf(seq![c]) == seq![c] + strip_lf(seq![c].drop_first()));
        assert(seq![c] + Seq::<u8>::empty() =~= seq![c]);
    }
}

/// Removing line feeds distributes over concatenation.
pub proof fn lemma_strip_lf_concat(a: Seq<u8>, b: Seq<u8>)
    ensures
        strip_lf(a + b) == strip_lf(a) + strip_lf(b),
    decreases a.len(),
{
    if a.len() == 0 {
        assert(a + b =~= b);
        assert(strip_lf(a) + strip_lf(b) =~= strip_lf(b));
    } else {
        assert((a + b).len() > 0);
        assert((a + b)[0] == a[0]);
        assert((a + b).drop_first() =~= a.drop_first() + b);
        lemma_strip_lf_concat(a.drop_first(), b);
        if a[0] == 10 {
        } else {
            assert(seq![a[0]] + (strip_lf(a.drop_first()) + strip_lf(b)) =~= (seq![a[0]]
                + strip_lf(a.drop_first())) + strip_lf(b));
        }
    }
}

/// A sequence without line feeds is unchanged by the removal.
pub proof fn lemma_strip_lf_id(s: Seq<u8>)
    requires
        no_lf(s),
    ensures
        strip_lf(s) == s,
    decreases s.len(),
{
    if s.len() == 0 {
    } else {
        assert forall|i: int| 0 <= i < s.drop_first().len() implies s.drop_first()[i] != 10 by {
            assert(s.drop_first()[i] == s[i + 1]);
        }
        lemma_strip_lf_id(s.drop_first());
        assert(seq![s[0]] + s.drop_first() =~= s);
    }
}

/// Removing the line feeds of a wrapped payload gives the payload back.
pub proof fn lemma_strip_wrap64(s: Seq<u8>)
    requires
        no_lf(s),
    ensures
        strip_lf(wrap64(s)) == s,
    decreases s.len(),
{
    if s.len() == 0 {
    } else if s.len() <= 64 {
        lemma_strip_lf_concat(s, seq![10u8]);
        lemma_strip_lf_id(s);
        lemma_strip_lf_single(10);
        assert(s + Seq::<u8>::empty() =~= s);
    } else {
        assert forall|i: int| 0 <= i < s.take(64).len() implies s.take(64)[i] != 10 by {}
        assert forall|i: int| 0 <= i < s.skip(64).len() implies s.skip(64)[i] != 10 by {
            assert(s.skip(64)[i] == s[i + 64]);
        }
        lemma_strip_lf_concat(s.take(64) + seq![10u8], wrap64(s.skip(64)));
        lemma_strip_lf_concat(s.take(64), seq![10u8]);
        lemma_strip_lf_id(s.take(64));
        lemma_strip_wrap64(s.skip(64));
        lemma_strip_lf_single(10);
        assert(s.take(64) + Seq::<u8>::empty() =~= s.take(64));
        assert(wrap64(s) == (s.take(64) + seq![10u8]) + wrap64(s.skip(64)));
        assert(s.take(64) + s.skip(64) =~= s);
    }
}

/// Cuts the payload into 64-symbol lines.
pub fn wrap64_bytes(b: &Vec<u8>) -> (r: Vec<u8>)
    ensures
        r@ == wrap64(b@),
{
    let mut out: Vec<u8> = Vec::new();
    let mut i: usize = 0;
    proof {
        assert(out@ =~= wrap64(b@.take(0)));
    }
    while b.len() - i > 64
        invariant
            i <= b@.len(),
            i % 64 == 0,
            out@ == wrap64(b@.take(i as int)),
        decreases b.len() - i,
    {
        let ghost pre = out@;
        let end = i + 64;
        let mut j: usize = i;
        proof {
            assert(out@ =~= pre + b@.subrange(i as int, i as int));
        }
        while j < end
            invariant
                end == i + 64,
                i + 64 < b@.len(),
                i <= j <= i + 64,
                out@ == pre + b@.subrange(i as int, j as int),
            decreases i + 64 - j,
        {
            out.push(b[j]);
            proof {
                assert(pre + b@.subrange(i as int, j + 1) =~= (pre + b@.subrange(
                    i as int,
                    j as int,
                )).push(b@[j as int]));
            }
            j += 1;
        }
        out.push(10);
        proof {
            let t = b@.take(i as int);
            let c = b@.subrange(i as int, i + 64);
            assert(b@.take(i + 64) =~= t + c);
            lemma_wrap64_concat(t, c);
            assert(wrap64(c) == c + seq![10u8]);
            assert(out@ =~= wrap64(b@.take(i + 64)));
        }
        i += 64;
    }
    if b.len() - i > 0 {
        let ghost pre = out@;
        let mut j: usize = i;
        proof {
            assert(out@ =~= pre + b@.subrange(i as int, i as int));
        }
        while j < b.len()
            invariant
                i <= j <= b@.len(),
                out@ == pre + b@.subrange(i as int, j as int),
            decreases b.len() - j,
        {
            out.push(b[j]);
            proof {
                assert(pre + b@.subrange(i as int, j + 1) =~= (pre + b@.subrange(
                    i as int,
                    j as int,
                )).push(b@[j as int]));
            }
            j += 1;
        }
        out.push(10);
        proof {
            let t = b@.take(i as int);
            let c = b@.subrange(i as int, b@.len() as int);
            assert(b@ =~= t + c);
            lemma_wrap64_concat(t, c);
            assert(wrap64(c) == c + seq![10u8]);
            assert(out@ =~= wrap64(b@));
        }
    } else {
        proof {
            assert(b@.take(i as int) =~= b@);
        }
    }
    out
}

/// The header line `-----BEGIN PGP MESSAGE-----`.
pub open spec fn armor_head() -> Seq<u8> {
    seq![
        45u8, 45u8, 45u8, 45u8, 45u8, 66u8, 69u8, 71u8, 73u8, 78u8, 32u8, 80u8, 71u8, 80u8, 32u8,
        77u8, 69u8, 83u8, 83u8, 65u8, 71u8, 69u8, 45u8, 45u8, 45u8, 45u8, 45u8,
    ]
}

/// The footer line `-----END PGP MESSAGE-----`.
pub open spec fn armor_foot() -> Seq<u8> {
    seq![
        45u8, 45u8, 45u8, 45u8, 45u8, 69u8, 78u8, 68u8, 32u8, 80u8, 71u8, 80u8, 32u8, 77u8, 69u8,
        83u8, 83u8, 65u8, 71u8, 69u8, 45u8, 45u8, 45u8, 45u8, 45u8,
    ]
}

fn make_armor_head() -> (r: Vec<u8>)
    ensures
        r@ == armor_head(),
{
    let mut v: Vec<u8> = Vec::new();
    v.push(45);
    v.push(45);
    v.push(45);
    v.push(45);
    v.push(45);
    v.push(66);
    v.push(69);
    v.push(71);
    v.push(73);
    v.push(78);
    v.push(32);
    v.push(80);
    v.push(71);
    v.push(80);
    v.push(32);
    v.push(77);
    v.push(69);
    v.push(83);
    v.push(83);
    v.push(65);
    v.push(71);
    v.push(69);
    v.push(45);
    v.push(45);
    v.push(45);
    v.push(45);
    v.push(45);
    proof {
        assert(v@ =~= armor_head());
    }
    v
}

fn make_armor_foot() -> (r: Vec<u8>)
    ensures
        r@ == armor_foot(),
{
    let mut v: Vec<u8> = Vec::new();
    v.push(45);
    v.push(45);
    v.push(45);
    v.push(45);
    v.push(45);
    v.push(69);
    v.push(78);
    v.push(68);
    v.push(32);
    v.push(80);
    v.push(71);
    v.push(80);
    v.push(32);
    v.push(77);
    v.push(69);
    v.push(83);
    v.push(83);
    v.push(65);
    v.push(71);
    v.push(69);
    v.push(45);
    v.push(45);
    v.push(45);
    v.push(45);
    v.push(45);
    proof {
        assert(v@ =~= armor_foot());
    }
    v
}

/// The full armor text for a payload: header, blank line, wrapped base64
/// body, checksum line, footer. An empty payload still yields a complete
/// block whose body region is simply empty.
pub open spec fn armor_spec(d: Seq<u8>) -> Seq<u8> {
    armor_head() + seq![10u8, 10u8] + wrap64(b64_encode(d)) + seq![61u8] + b64_encode(
        crc24_bytes(crc24_of(d)),
    ) + seq![10u8] + armor_foot() + seq![10u8]
}

/// The armor text of any payload has the 29-byte opening, the 32-byte
/// closing (checksum line and footer), and the wrapped body in between.
proof fn lemma_armor_parts(b: Seq<u8>)
    ensures
        armor_spec(b).len() == 61 + wrap64(b64_encode(b)).len(),
        armor_spec(b).subrange(29, armor_spec(b).len() - 32) == wrap64(b64_encode(b)),
{
    let cb = crc24_bytes(crc24_of(b));
    assert(cb.len() == 3);
    assert(b64_encode(cb) == b64_group(cb[0], cb[1], cb[2]) + b64_encode(cb.skip(3)));
    assert(cb.skip(3) =~= Seq::<u8>::empty());
    assert(b64_encode(cb).len() == 4);
    assert(armor_spec(b).subrange(29, armor_spec(b).len() - 32) =~= wrap64(b64_encode(b)));
}

/// Encodes a payload as ASCII armor.
pub fn armor_encode(data: &Vec<u8>) -> (r: Vec<u8>)
    ensures
        r@ == armor_spec(data@),
{
    let mut out = make_armor_head();
    out.push(10);
    out.push(10);
    let e = b64_encode_bytes(data);
    let w = wrap64_bytes(&e);
    append_bytes(&mut out, &w);
    out.push(61);
    let c = crc24(data);
    let cb = crc24_to_bytes(c);
    let ce = b64_encode_bytes(&cb);
    append_bytes(&mut out, &ce);
    out.push(10);
    let f = make_armor_foot();
    append_bytes(&mut out, &f);
    out.push(10);
    proof {
        assert(out@ =~= armor_spec(data@));
    }
    out
}

/// Decodes ASCII armor, strictly: the result is `Some(d)` exactly when the
/// input is the canonical armor text of `d`. In particular decoding inverts
/// encoding on every payload.
pub fn armor_decode(text: &Vec<u8>) -> (r: Option<Vec<u8>>)
    ensures
        r matches Some(d) ==> text@ == armor_spec(d@),
        forall|b: Seq<u8>| text@ == armor_spec(b) ==> (r matches Some(d) && d@ == b),
{
    let n = text.len();
    if n < 61 {
        proof {
            assert forall|b: Seq<u8>| text@ == armor_spec(b) implies false by {
                lemma_armor_parts(b);
            }
        }
        return None;
    }
    let mut body: Vec<u8> = Vec::new();
    let mut k: usize = 29;
    proof {
        assert(body@ =~= strip_lf(text@.subrange(29, 29)));
    }
    while k < n - 32
        invariant
            n == text@.len(),
            61 <= n,
            29 <= k <= n - 32,
            body@ == strip_lf(text@.subrange(29, k as int)),
        decreases n - 32 - k,
    {
        let c = text[k];
        if c != 10 {
            body.push(c);
        }
        proof {
            let pre = text@.subrange(29, k as int);
            assert(text@.subrange(29, k + 1) =~= pre + seq![text@[k as int]]);
            lemma_strip_lf_concat(pre, seq![text@[k as int]]);
            lemma_strip_lf_single(text@[k as int]);
            if text@[k as int] == 10 {
                assert(strip_lf(pre) + Seq::<u8>::empty() =~= strip_lf(pre));
            } else {
                assert(body@ =~= strip_lf(pre) + seq![text@[k as int]]);
            }
        }
        k += 1;
    }
    let ghost region = text@.subrange(29, n - 32);
    let dec = b64_decode_bytes(&body);
    proof {
        assert forall|b: Seq<u8>| text@ == armor_spec(b) implies b64_valid(body@) && b64_dec(
            body@,
        ) == b by {
            lemma_armor_parts(b);
            assert(region == wrap64(b64_encode(b)));
            lemma_b64_encode_sym(b);
            lemma_strip_wrap64(b64_encode(b));
            lemma_b64_round_trip(b);
        }
    }
    match dec {
        None => {
            proof {
                assert forall|b: Seq<u8>| text@ == armor_spec(b) implies false by {}
            }
            None
        },
        Some(d) => {
            let re = armor_encode(&d);
            if vec_eq_bytes(&re, text) {
                proof {
                    assert forall|b: Seq<u8>| text@ == armor_spec(b) implies d@ == b by {}
                }
                Some(d)
            } else {
                proof {
                    assert forall|b: Seq<u8>| text@ == armor_spec(b) implies false by {
                        assert(d@ == b);
                        assert(re@ == armor_spec(b));
                    }
                }
                None
            }
        },
    }
}

} // verus!
