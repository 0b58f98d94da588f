//! The mail envelope: an RFC 5322 message whose body is the RFC 3156
//! `multipart/encrypted` container — first the fixed version part, then the
//! armored ciphertext part, in that order, separated by a generated boundary
//! that occurs in neither part's body. Lines of the envelope end with CRLF;
//! the armored text is carried verbatim.

use vstd::prelude::*;

use crate::armor::armor_spec;
use crate::armor::armor_encode;
use crate::bytes::{append_bytes, contains_sub, is_sub};
use crate::datefmt::{date_spec, push_date};
use crate::lit::{
    lit_ctype,
    lit_date,
    lit_disp,
    lit_from,
    lit_idhost,
    lit_msgid,
    lit_part_enc,
    lit_part_octet,
    lit_part_version,
    lit_subject,
    lit_to,
    mk_lit_ctype,
    mk_lit_date,
    mk_lit_disp,
    mk_lit_from,
    mk_lit_idhost,
    mk_lit_msgid,
    mk_lit_part_enc,
    mk_lit_part_octet,
    mk_lit_part_version,
    mk_lit_subject,
    mk_lit_to,
    mk_version_body,
    version_body,
};
use crate::numfmt::{hex16, push_hex16};

verus! {

/// The configuration of one run: sender, recipient, subject, and the path
/// the message is read from. The path is used by the caller that does the
/// reading; the builder itself only needs the three header fields.
pub struct Settings {
    pub from: Vec<u8>,
    pub to: Vec<u8>,
    pub subject: Vec<u8>,
    pub path: Vec<u8>,
}

/// What can go wrong over a whole run. The library's own functions fail only
/// with `Validation`; reading the message and writing the result are done by
/// the caller, which uses the input and output variants, and `Encoding` is
/// the name it gives an armoring failure outside this library's control.
#[derive(Clone, Copy, Debug, PartialEq, Eq, Structural)]
pub enum MailError {
    Input,
    Encoding,
    Validation,
    Output,
}

/// A byte allowed in an address: printable ASCII, excluding the separators
/// and quoting characters that would break or forge a header.
pub open spec fn addr_char_ok(c: u8) -> bool {
    &&& 33 <= c <= 126
    &&& c != 60
    &&& c != 62
    &&& c != 44
    &&& c != 59
    &&& c != 34
    &&& c != 92
    &&& c != 40
    &&& c != 41
}

/// The number of `@` bytes in the sequence.
pub open spec fn at_count(s: Seq<u8>) -> int
    decreases s.len(),
{
    if s.len() == 0 {
        0
    } else {
        (if s[0] == 64 {
            1int
        } else {
            0int
        }) + at_count(s.drop_first())
    }
}

/// A well-formed address: allowed bytes only, exactly one `@`, and the `@`
/// neither first nor last.
pub open spec fn addr_ok(s: Seq<u8>) -> bool {
    &&& 3 <= s.len()
    &&& forall|i: int| 0 <= i < s.len() ==> addr_char_ok(#[trigger] s[i])
    &&& at_count(s) == 1
    &&& s[0] != 64
    &&& s[s.len() - 1] != 64
}

/// A subject fit for a header line: printable ASCII and blanks, nothing that
/// could end the line or smuggle a header in.
pub open spec fn subject_ok(s: Seq<u8>) -> bool {
    forall|i: int| 0 <= i < s.len() ==> 32 <= #[trigger] s[i] <= 126
}

/// Appending one byte raises the `@` count exactly when the byte is an `@`.
proof fn lemma_at_count_push(s: Seq<u8>, c: u8)
    ensures
        at_count(s.push(c)) == at_count(s) + (if c == 64 {
            1int
        } else {
            0int
        }),
    decreases s.len(),
{
    if s.len() == 0 {
        assert(s.push(c)[0] == c);
        assert(s.push(c).drop_first() =~= Seq::<u8>::empty());
        assert(at_count(Seq::<u8>::empty()) == 0);
    } else {
        assert(s.push(c)[0] == s[0]);
        assert(s.push(c).drop_first() =~= s.drop_first().push(c));
        lemma_at_count_push(s.drop_first(), c);
    }
}

/// Decides `addr_ok`.
pub fn check_addr(s: &Vec<u8>) -> (r: bool)
    ensures
        r == addr_ok(s@),
{
    if s.len() < 3 {
        return false;
    }
    if s[0] == 64 {
        return false;
    }
    if s[s.len() - 1] == 64 {
        return false;
    }
    let mut ok = true;
    let mut cnt: usize = 0;
    let mut i: usize = 0;
    while i < s.len()
        invariant
            i <= s@.len(),
            cnt <= i,
            cnt == at_count(s@.take(i as int)),
            ok <==> (forall|j: int| 0 <= j < i ==> addr_char_ok(#[trigger] s@[j])),
        decreases s.len() - i,
    {
        let c = s[i];
        let good = 33 <= c && c <= 126 && c != 60 && c != 62 && c != 44 && c != 59 && c != 34 && c
            != 92 && c != 40 && c != 41;
        ok = ok && good;
        if c == 64 {
            cnt += 1;
        }
        proof {
            assert(s@.take(i + 1) =~= s@.take(i as int).push(s@[i as int]));
            lemma_at_count_push(s@.take(i as int), s@[i as int]);
        }
        i += 1;
    }
    proof {
        assert(s@.take(s@.len() as int) =~= s@);
    }
    ok && cnt == 1
}

/// Decides `subject_ok`.
pub fn check_subject(s: &Vec<u8>) -> (r: bool)
    ensures
        r == subject_ok(s@),
{
    let mut ok = true;
    let mut i: usize = 0;
    while i < s.len()
        invariant
            i <= s@.len(),
            ok <==> (forall|j: int| 0 <= j < i ==> 32 <= #[trigger] s@[j] <= 126),
        decreases s.len() - i,
    {
        let c = s[i];
        ok = ok && 32 <= c && c <= 126;
        i += 1;
    }
    ok
}

/// A boundary that collides with neither body: the shortest run of `=` that
/// is a substring of neither. A run one longer than a body cannot occur in
/// it, so the search stops.
pub fn boundary_for(a: &Vec<u8>, b: &Vec<u8>) -> (r: Vec<u8>)
    ensures
        r@.len() >= 1,
        forall|i: int| 0 <= i < r@.len() ==> r@[i] == 61,
        !is_sub(r@, a@),
        !is_sub(r@, b@),
{
    let mut v: Vec<u8> = Vec::new();
    v.push(61);
    while contains_sub(a, &v) || contains_sub(b, &v)
        invariant
            1 <= v@.len() <= a@.len() + b@.len() + 1,
            forall|i: int| 0 <= i < v@.len() ==> v@[i] == 61,
        decreases a@.len() + b@.len() + 2 - v@.len(),
    {
        v.push(61);
    }
    v
}

/// The CRLF line ending.
pub open spec fn crlf() -> Seq<u8> {
    seq![13u8, 10u8]
}

/// The two dashes that open a boundary delimiter line.
pub open spec fn dd() -> Seq<u8> {
    seq![45u8, 45u8]
}

fn push_crlf(out: &mut Vec<u8>)
    ensures
        final(out)@ == old(out)@ + crlf(),
{
    out.push(13);
    out.push(10);
    proof {
        assert(out@ =~= old(out)@ + crlf());
    }
}

fn push_dd(out: &mut Vec<u8>)
    ensures
        final(out)@ == old(out)@ + dd(),
{
    out.push(45);
    out.push(45);
    proof {
        assert(out@ =~= old(out)@ + dd());
    }
}

fn push_sep(out: &mut Vec<u8>, b: u8)
    ensures
        final(out)@ == old(out)@ + seq![b],
{
    out.push(b);
    proof {
        assert(out@ =~= old(out)@ + seq![b]);
    }
}

/// The header section: From, To, Subject, Message-ID, Date, the container's
/// Content-Type with its protocol and boundary parameters, and the inline
/// disposition, closed by the empty line before the body.
pub open spec fn header_block(
    from: Seq<u8>,
    to: Seq<u8>,
    subject: Seq<u8>,
    now: u64,
    nonce: u64,
    bnd: Seq<u8>,
) -> Seq<u8> {
    lit_from() + from + crlf() + lit_to() + to + crlf() + lit_subject() + subject + crlf()
        + lit_msgid() + hex16(now) + seq![46u8] + hex16(nonce) + lit_idhost() + crlf() + lit_date()
        + date_spec(now) + crlf() + lit_ctype() + bnd + seq![34u8] + crlf() + lit_disp() + crlf()
        + crlf()
}

/// The body section: the version part, then the ciphertext part carrying the
/// armored text verbatim, each opened by a boundary delimiter line, and the
/// closing delimiter at the end.
pub open spec fn body_block(armored: Seq<u8>, bnd: Seq<u8>) -> Seq<u8> {
    dd() + bnd + crlf() + lit_part_version() + crlf() + crlf() + version_body() + crlf() + dd()
        + bnd + crlf() + lit_part_octet() + crlf() + lit_part_enc() + crlf() + crlf() + armored
        + dd() + bnd + dd() + crlf()
}

/// The whole serialized email.
pub open spec fn email_spec(
    from: Seq<u8>,
    to: Seq<u8>,
    subject: Seq<u8>,
    now: u64,
    nonce: u64,
    armored: Seq<u8>,
    bnd: Seq<u8>,
) -> Seq<u8> {
    header_block(from, to, subject, now, nonce, bnd) + body_block(armored, bnd)
}

/// Builds the serialized email around an already armored ciphertext.
///
/// Succeeds exactly on well-formed sender, recipient and subject, and then
/// produces the full message laid out by `email_spec`, for a boundary made
/// of `=` runs that occurs in neither part body.
#[verifier::rlimit(100)]
pub fn build_email(st: &Settings, armored: &Vec<u8>, now: u64, nonce: u64) -> (r: Result<
    Vec<u8>,
    MailError,
>)
    ensures
        ({
            let valid = addr_ok(st.from@) && addr_ok(st.to@) && subject_ok(st.subject@);
            match r {
                Ok(out) => valid && (exists|bnd: Seq<u8>|
                    #![trigger email_spec(st.from@, st.to@, st.subject@, now, nonce, armored@, bnd)]
                    bnd.len() >= 1 && (forall|i: int| 0 <= i < bnd.len() ==> bnd[i] == 61)
                        && !is_sub(bnd, version_body()) && !is_sub(bnd, armored@) && out@
                        == email_spec(st.from@, st.to@, st.subject@, now, nonce, armored@, bnd)),
                Err(e) => !valid && e == MailError::Validation,
            }
        }),
{
    if !check_addr(&st.from) {
        return Err(MailError::Validation);
    }
    if !check_addr(&st.to) {
        return Err(MailError::Validation);
    }
    if !check_subject(&st.subject) {
        return Err(MailError::Validation);
    }
    let vbody = mk_version_body();
    let bnd = boundary_for(&vbody, armored);

    let mut out = mk_lit_from();
    append_bytes(&mut out, &st.from);
    push_crlf(&mut out);
    let t = mk_lit_to();
    append_bytes(&mut out, &t);
    append_bytes(&mut out, &st.to);
    push_crlf(&mut out);
    let t = mk_lit_subject();
    append_bytes(&mut out, &t);
    append_bytes(&mut out, &st.subject);
    push_crlf(&mut out);
    let t = mk_lit_msgid();
    append_bytes(&mut out, &t);
    push_hex16(&mut out, now);
    push_sep(&mut out, 46);
    push_hex16(&mut out, nonce);
    let t = mk_lit_idhost();
    append_bytes(&mut out, &t);
    push_crlf(&mut out);
    let t = mk_lit_date();
    append_bytes(&mut out, &t);
    push_date(&mut out, now);
    push_crlf(&mut out);
    let t = mk_lit_ctype();
    append_bytes(&mut out, &t);
    append_bytes(&mut out, &bnd);
    push_sep(&mut out, 34);
    push_crlf(&mut out);
    let t = mk_lit_disp();
    append_bytes(&mut out, &t);
    push_crlf(&mut out);
    push_crlf(&mut out);
    proof {
        assert(out@ == header_block(st.from@, st.to@, st.subject@, now, nonce, bnd@));
    }

    push_dd(&mut out);
    append_bytes(&mut out, &bnd);
    push_crlf(&mut out);
    let t = mk_lit_part_version();
    append_bytes(&mut out, &t);
    push_crlf(&mut out);
    push_crlf(&mut out);
    append_bytes(&mut out, &vbody);
    push_crlf(&mut out);
    push_dd(&mut out);
    append_bytes(&mut out, &bnd);
    push_crlf(&mut out);
    let t = mk_lit_part_octet();
    append_bytes(&mut out, &t);
    push_crlf(&mut out);
    let t = mk_lit_part_enc();
    append_bytes(&mut out, &t);
    push_crlf(&mut out);
    push_crlf(&mut out);
    append_bytes(&mut out, armored);
    push_dd(&mut out);
    append_bytes(&mut out, &bnd);
    push_dd(&mut out);
    push_crlf(&mut out);
    proof {
        assert(out@ == header_block(st.from@, st.to@, st.subject@, now, nonce, bnd@) + body_block(
            armored@,
            bnd@,
        ));
        assert(out@ == email_spec(st.from@, st.to@, st.subject@, now, nonce, armored@, bnd@));
    }
    Ok(out)
}

/// Armors the raw message bytes and builds the serialized email around them.
///
/// Succeeds exactly on well-formed sender, recipient and subject; the
/// ciphertext part then carries the full armor text of the message.
pub fn encrypt_mail(st: &Settings, msg: &Vec<u8>, now: u64, nonce: u64) -> (r: Result<
    Vec<u8>,
    MailError,
>)
    ensures
        ({
            let valid = addr_ok(st.from@) && addr_ok(st.to@) && subject_ok(st.subject@);
            match r {
                Ok(out) => valid && (exists|bnd: Seq<u8>|
                    #![trigger email_spec(
                        st.from@,
                        st.to@,
                        st.subject@,
                        now,
                        nonce,
                        armor_spec(msg@),
                        bnd,
                    )]
                    bnd.len() >= 1 && (forall|i: int| 0 <= i < bnd.len() ==> bnd[i] == 61)
                        && !is_sub(bnd, version_body()) && !is_sub(bnd, armor_spec(msg@)) && out@
                        == email_spec(
                        st.from@,
                        st.to@,
                        st.subject@,
                        now,
                        nonce,
                        armor_spec(msg@),
                        bnd,
                    )),
                Err(e) => !valid && e == MailError::Validation,
            }
        }),
{
    let armored = armor_encode(msg);
    build_email(st, &armored, now, nonce)
}

} // verus!
