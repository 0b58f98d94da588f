//! Base64 with the standard alphabet (RFC 4648), as the armor body uses it:
//! three payload bytes become four symbol bytes, a short final group is
//! padded with `=`. Decoding is strict: it accepts exactly the canonical
//! encodings, so that encoding and decoding invert each other.

use vstd::prelude::*;

verus! {

/// The symbol for a six-bit value under the standard alphabet. Values 64 and
/// above do not occur in encodings; the function is total for convenience.
pub open spec fn b64_char(v: u8) -> u8 {
    if v < 26 {
        (65 + v) as u8  // 'A'..='Z'
    } else if v < 52 {
        (71 + v) as u8  // 'a'..='z'
    } else if v < 62 {
        (v - 4) as u8  // '0'..='9'
    } else if v == 62 {
        43  // '+'
    } else {
        47  // '/'
    }
}

/// The six-bit value of a symbol, or 255 for a byte outside the alphabet.
pub open spec fn b64_val(c: u8) -> u8 {
    if 65 <= c && c <= 90 {
        (c - 65) as u8
    } else if 97 <= c && c <= 122 {
        (c - 71) as u8
    } else if 48 <= c && c <= 57 {
        (c + 4) as u8
    } else if c == 43 {
        62
    } else if c == 47 {
        63
    } else {
        255
    }
}

pub open spec fn is_b64_char(c: u8) -> bool {
    b64_val(c) != 255
}

/// The four symbols of one full three-byte group.
pub open spec fn b64_group(b0: u8, b1: u8, b2: u8) -> Seq<u8> {
    seq![
        b64_char(b0 >> 2),
        b64_char(((b0 & 3) << 4) | (b1 >> 4)),
        b64_char(((b1 & 15) << 2) | (b2 >> 6)),
        b64_char(b2 & 63),
    ]
}

/// The canonical base64 encoding of a byte sequence: full groups of three,
/// then a padded final group of one or two bytes if any remain.
pub open spec fn b64_encode(s: Seq<u8>) -> Seq<u8>
    decreases s.len(),
{
    if s.len() == 0 {
        Seq::empty()
    } else if s.len() == 1 {
        seq![b64_char(s[0] >> 2), b64_char((s[0] & 3) << 4), 61, 61]
    } else if s.len() == 2 {
        seq![
            b64_char(s[0] >> 2),
            b64_char(((s[0] & 3) << 4) | (s[1] >> 4)),
            b64_char((s[1] & 15) << 2),
            61,
        ]
    } else {
        b64_group(s[0], s[1], s[2]) + b64_encode(s.skip(3))
    }
}

/// Whether a symbol sequence is a canonical encoding: whole groups of four,
/// padding only in a final group, and the unused bits of a padded group zero.
pub open spec fn b64_valid(s: Seq<u8>) -> bool
    decreases s.len(),
{
    if s.len() == 0 {
        true
    } else if s.len() < 4 {
        false
    } else if !(is_b64_char(s[0]) && is_b64_char(s[1])) {
        false
    } else if s[2] == 61 && s[3] == 61 {
        s.len() == 4 && b64_val(s[1]) & 15 == 0
    } else if s[3] == 61 {
        s.len() == 4 && is_b64_char(s[2]) && b64_val(s[2]) & 3 == 0
    } else {
        is_b64_char(s[2]) && is_b64_char(s[3]) && b64_valid(s.skip(4))
    }
}

/// The bytes a symbol sequence decodes to. Meaningful where `b64_valid`
/// holds; total so that it can be stated of any sequence.
pub open spec fn b64_dec(s: Seq<u8>) -> Seq<u8>
    decreases s.len(),
{
    if s.len() < 4 {
        Seq::empty()
    } else {
        let v0 = b64_val(s[0]);
        let v1 = b64_val(s[1]);
        if s[2] == 61 && s[3] == 61 {
            seq![(v0 << 2) | (v1 >> 4)]
        } else if s[3] == 61 {
            let v2 = b64_val(s[2]);
            seq![(v0 << 2) | (v1 >> 4), (v1 << 4) | (v2 >> 2)]
        } else {
            let v2 = b64_val(s[2]);
            let v3 = b64_val(s[3]);
            seq![(v0 << 2) | (v1 >> 4), (v1 << 4) | (v2 >> 2), (v2 << 6) | v3] + b64_dec(
                s.skip(4),
            )
        }
    }
}

/// Encoding then reading the symbol back gives the six-bit value, and no
/// symbol is a line feed or the padding byte.
pub proof fn lemma_b64_char_val(v: u8)
    requires
        v < 64,
    ensures
        is_b64_char(b64_char(v)),
        b64_val(b64_char(v)) == v,
        b64_char(v) != 10,
        b64_char(v) != 61,
{
}

/// Every byte of an encoding is an alphabet symbol or the padding byte; in
/// particular none is a line feed.
pub proof fn lemma_b64_encode_sym(d: Seq<u8>)
    ensures
        forall|i: int|
            0 <= i < b64_encode(d).len() ==> (is_b64_char(#[trigger] b64_encode(d)[i])
                || b64_encode(d)[i] == 61),
        forall|i: int| 0 <= i < b64_encode(d).len() ==> #[trigger] b64_encode(d)[i] != 10,
    decreases d.len(),
{
    assert forall|v: u8| is_b64_char(b64_char(v)) || b64_char(v) == 61 by {}
    assert forall|v: u8| b64_char(v) != 10 by {}
    if d.len() <= 2 {
    } else {
        lemma_b64_encode_sym(d.skip(3));
        assert forall|i: int|
            0 <= i < b64_encode(d).len() implies (is_b64_char(#[trigger] b64_encode(d)[i])
            || b64_encode(d)[i] == 61) && b64_encode(d)[i] != 10 by {
            if i >= 4 {
                assert(b64_encode(d)[i] == b64_encode(d.skip(3))[i - 4]);
            }
        }
    }
}

/// Encoding distributes over splitting the input after a whole number of
/// three-byte groups.
pub proof fn lemma_b64_concat(t: Seq<u8>, r: Seq<u8>)
    requires
        t.len() % 3 == 0,
    ensures
        b64_encode(t + r) == b64_encode(t) + b64_encode(r),
    decreases t.len(),
{
    if t.len() == 0 {
        assert(t + r =~= r);
        assert(b64_encode(t) + b64_encode(r) =~= b64_encode(r));
    } else {
        let u = t + r;
        assert(u[0] == t[0] && u[1] == t[1] && u[2] == t[2]);
        assert(u.skip(3) =~= t.skip(3) + r);
        assert(t.skip(3).len() % 3 == 0);
        lemma_b64_concat(t.skip(3), r);
        if r.len() == 0 {
            assert(u =~= t);
            assert(b64_encode(t) + b64_encode(r) =~= b64_encode(t));
        } else {
            assert(b64_encode(u) == b64_group(u[0], u[1], u[2]) + b64_encode(u.skip(3)));
            assert(b64_encode(t) == b64_group(t[0], t[1], t[2]) + b64_encode(t.skip(3)));
            assert(b64_group(t[0], t[1], t[2]) + (b64_encode(t.skip(3)) + b64_encode(r)) =~= (
            b64_group(t[0], t[1], t[2]) + b64_encode(t.skip(3))) + b64_encode(r));
        }
    }
}

/// Round trip: the canonical encoding of any byte sequence is valid and
/// decodes to that sequence.
pub proof fn lemma_b64_round_trip(d: Seq<u8>)
    ensures
        b64_valid(b64_encode(d)),
        b64_dec(b64_encode(d)) == d,
    decreases d.len(),
{
    let e = b64_encode(d);
    if d.len() == 0 {
    } else if d.len() == 1 {
        let b0 = d[0];
        assert(b0 >> 2 < 64 && (b0 & 3) << 4 < 64) by (bit_vector);
        lemma_b64_char_val(b0 >> 2);
        lemma_b64_char_val((b0 & 3) << 4);
        assert((((b0 & 3) << 4) & 15) == 0) by (bit_vector);
        assert((((b0 >> 2) << 2) | (((b0 & 3) << 4) >> 4)) == b0) by (bit_vector);
        assert(b64_dec(e) =~= d);
    } else if d.len() == 2 {
        let b0 = d[0];
        let b1 = d[1];
        assert(b0 >> 2 < 64 && (((b0 & 3) << 4) | (b1 >> 4)) < 64 && (b1 & 15) << 2 < 64)
            by (bit_vector);
        lemma_b64_char_val(b0 >> 2);
        lemma_b64_char_val(((b0 & 3) << 4) | (b1 >> 4));
        lemma_b64_char_val((b1 & 15) << 2);
        assert((((b1 & 15) << 2) & 3) == 0) by (bit_vector);
        assert((((b0 >> 2) << 2) | (((((b0 & 3) << 4) | (b1 >> 4))) >> 4)) == b0) by (bit_vector);
        assert((((((b0 & 3) << 4) | (b1 >> 4)) << 4) | (((b1 & 15) << 2) >> 2)) == b1)
            by (bit_vector);
        assert(b64_dec(e) =~= d);
    } else {
        let b0 = d[0];
        let b1 = d[1];
        let b2 = d[2];
        assert(b0 >> 2 < 64 && (((b0 & 3) << 4) | (b1 >> 4)) < 64 && (((b1 & 15) << 2) | (b2
            >> 6)) < 64 && b2 & 63 < 64) by (bit_vector);
        lemma_b64_char_val(b0 >> 2);
        lemma_b64_char_val(((b0 & 3) << 4) | (b1 >> 4));
        lemma_b64_char_val(((b1 & 15) << 2) | (b2 >> 6));
        lemma_b64_char_val(b2 & 63);
        lemma_b64_round_trip(d.skip(3));
        let g = b64_group(b0, b1, b2);
        let rest = b64_encode(d.skip(3));
        assert(e == g + rest);
        assert(e[0] == g[0] && e[1] == g[1] && e[2] == g[2] && e[3] == g[3]);
        assert(e.len() >= 4);
        assert(e.skip(4) =~= rest) by {
            assert(g.len() == 4);
        }
        assert((((b0 >> 2) << 2) | (((((b0 & 3) << 4) | (b1 >> 4))) >> 4)) == b0) by (bit_vector);
        assert((((((b0 & 3) << 4) | (b1 >> 4)) << 4) | (((((b1 & 15) << 2) | (b2 >> 6))) >> 2))
            == b1) by (bit_vector);
        assert((((((b1 & 15) << 2) | (b2 >> 6)) << 6) | (b2 & 63)) == b2) by (bit_vector);
        assert(b64_valid(e));
        assert(b64_dec(e) =~= d);
    }
}

/// The symbol for a six-bit value (or any byte; values 64 and above are
/// mapped as the spec function maps them).
fn b64_char_of(v: u8) -> (r: u8)
    ensures
        r == b64_char(v),
{
    if v < 26 {
        65 + v
    } else if v < 52 {
        71 + v
    } else if v < 62 {
        v - 4
    } else if v == 62 {
        43
    } else {
        47
    }
}

/// The six-bit value of a symbol, or 255 outside the alphabet.
fn b64_val_of(c: u8) -> (r: u8)
    ensures
        r == b64_val(c),
{
    if 65 <= c && c <= 90 {
        c - 65
    } else if 97 <= c && c <= 122 {
        c - 71
    } else if 48 <= c && c <= 57 {
        c + 4
    } else if c == 43 {
        62
    } else if c == 47 {
        63
    } else {
        255
    }
}

/// Encodes bytes as canonical base64.
pub fn b64_encode_bytes(data: &Vec<u8>) -> (r: Vec<u8>)
    ensures
        r@ == b64_encode(data@),
{
    let mut out: Vec<u8> = Vec::new();
    let mut i: usize = 0;
    while data.len() - i >= 3
        invariant
            i <= data.len(),
            i % 3 == 0,
            out@ == b64_encode(data@.take(i as int)),
        decreases data.len() - i,
    {
        let b0 = data[i];
        let b1 = data[i + 1];
        let b2 = data[i + 2];
        out.push(b64_char_of(b0 >> 2));
        out.push(b64_char_of(((b0 & 3) << 4) | (b1 >> 4)));
        out.push(b64_char_of(((b1 & 15) << 2) | (b2 >> 6)));
        out.push(b64_char_of(b2 & 63));
        proof {
            let g = data@.subrange(i as int, i + 3);
            assert(data@.take(i + 3) =~= data@.take(i as int) + g);
            lemma_b64_concat(data@.take(i as int), g);
            assert(g.skip(3) =~= Seq::<u8>::empty());
            assert(b64_encode(g) == b64_group(g[0], g[1], g[2]) + b64_encode(g.skip(3)));
            assert(out@ =~= b64_encode(data@.take(i + 3)));
        }
        i += 3;
    }
    let ghost done = data@.take(i as int);
    let ghost tail = data@.subrange(i as int, data@.len() as int);
    proof {
        assert(data@ =~= done + tail);
        lemma_b64_concat(done, tail);
    }
    if data.len() - i == 2 {
        let b0 = data[i];
        let b1 = data[i + 1];
        out.push(b64_char_of(b0 >> 2));
        out.push(b64_char_of(((b0 & 3) << 4) | (b1 >> 4)));
        out.push(b64_char_of((b1 & 15) << 2));
        out.push(61);
        proof {
            assert(tail.len() == 2 && tail[0] == b0 && tail[1] == b1);
            assert(out@ =~= b64_encode(data@));
        }
    } else if data.len() - i == 1 {
        let b0 = data[i];
        out.push(b64_char_of(b0 >> 2));
        out.push(b64_char_of((b0 & 3) << 4));
        out.push(61);
        out.push(61);
        proof {
            assert(tail.len() == 1 && tail[0] == b0);
            assert(out@ =~= b64_encode(data@));
        }
    } else {
        proof {
            assert(tail.len() == 0);
            assert(out@ =~= b64_encode(data@));
        }
    }
    out
}

/// Decodes a canonical base64 encoding; rejects anything else.
pub fn b64_decode_bytes(s: &Vec<u8>) -> (r: Option<Vec<u8>>)
    ensures
        r is Some <==> b64_valid(s@),
        r matches Some(v) ==> v@ == b64_dec(s@),
{
    let mut out: Vec<u8> = Vec::new();
    let mut i: usize = 0;
    proof {
        assert(s@.skip(0) =~= s@);
    }
    while s.len() - i >= 4
        invariant
            i <= s.len(),
            i % 4 == 0,
            b64_valid(s@) <==> b64_valid(s@.skip(i as int)),
            b64_dec(s@) == out@ + b64_dec(s@.skip(i as int)),
        decreases s.len() - i,
    {
        let ghost pre = s@.skip(i as int);
        proof {
            assert(pre.len() >= 4);
            assert(pre[0] == s@[i as int] && pre[1] == s@[i + 1] && pre[2] == s@[i + 2] && pre[3]
                == s@[i + 3]);
        }
        let c0 = s[i];
        let c1 = s[i + 1];
        let c2 = s[i + 2];
        let c3 = s[i + 3];
        let v0 = b64_val_of(c0);
        let v1 = b64_val_of(c1);
        if v0 == 255 || v1 == 255 {
            return None;
        }
        if c2 == 61 && c3 == 61 {
            if i + 4 == s.len() && (v1 & 15) == 0 {
                out.push((v0 << 2) | (v1 >> 4));
                proof {
                    assert(b64_valid(pre));
                    assert(b64_dec(pre) =~= seq![(v0 << 2) | (v1 >> 4)]);
                    assert(out@ =~= b64_dec(s@));
                }
                return Some(out);
            } else {
                return None;
            }
        } else if c3 == 61 {
            let v2 = b64_val_of(c2);
            if i + 4 == s.len() && v2 != 255 && (v2 & 3) == 0 {
                out.push((v0 << 2) | (v1 >> 4));
                out.push((v1 << 4) | (v2 >> 2));
                proof {
                    assert(b64_valid(pre));
                    assert(b64_dec(pre) =~= seq![(v0 << 2) | (v1 >> 4), (v1 << 4) | (v2 >> 2)]);
                    assert(out@ =~= b64_dec(s@));
                }
                return Some(out);
            } else {
                return None;
            }
        } else {
            let v2 = b64_val_of(c2);
            let v3 = b64_val_of(c3);
            if v2 == 255 || v3 == 255 {
                proof {
                    assert(!b64_valid(pre));
                }
                return None;
            }
            out.push((v0 << 2) | (v1 >> 4));
            out.push((v1 << 4) | (v2 >> 2));
            out.push((v2 << 6) | v3);
            proof {
                assert(pre.skip(4) =~= s@.skip(i + 4));
                assert(b64_valid(pre) <==> b64_valid(pre.skip(4)));
                assert(b64_dec(pre) == seq![(v0 << 2) | (v1 >> 4), (v1 << 4) | (v2 >> 2), (v2 << 6)
                    | v3] + b64_dec(pre.skip(4)));
                assert(out@ + b64_dec(s@.skip(i + 4)) =~= b64_dec(s@));
            }
            i += 4;
        }
    }
    if i == s.len() {
        proof {
            assert(s@.skip(i as int).len() == 0);
            assert(b64_valid(s@));
            assert(out@ =~= b64_dec(s@));
        }
        Some(out)
    } else {
        proof {
            assert(0 < s@.skip(i as int).len() < 4);
            assert(!b64_valid(s@));
        }
        None
    }
}

} // verus!
