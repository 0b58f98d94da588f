//! The fixed header texts of the mail envelope, as byte sequences, each
//! with the small function that builds it.

use vstd::prelude::*;

verus! {

/// The bytes of the `From:` header label.
pub open spec fn lit_from() -> Seq<u8> {
    seq![70u8, 114u8, 111u8, 109u8, 58u8, 32u8]
}

pub fn mk_lit_from() -> (r: Vec<u8>)
    ensures
        r@ == lit_from(),
{
    let mut v: Vec<u8> = Vec::new();
    v.push(70);
    v.push(114);
    v.push(111);
    v.push(109);
    v.push(58);
    v.push(32);
    proof {
        assert(v@ =~= lit_from());
    }
    v
}

/// The bytes of the `To:` header label.
pub open spec fn lit_to() -> Seq<u8> {
    seq![84u8, 111u8, 58u8, 32u8]
}

pub fn mk_lit_to() -> (r: Vec<u8>)
    ensures
        r@ == lit_to(),
{
    let mut v: Vec<u8> = Vec::new();
    v.push(84);
    v.push(111);
    v.push(58);
    v.push(32);
    proof {
        assert(v@ =~= lit_to());
    }
    v
}

/// The bytes of the `Subject:` header label.
pub open spec fn lit_subject() -> Seq<u8> {
    seq![83u8, 117u8, 98u8, 106u8, 101u8, 99u8, 116u8, 58u8, 32u8]
}

pub fn mk_lit_subject() -> (r: Vec<u8>)
    ensures
        r@ == lit_subject(),
{
    let mut v: Vec<u8> = Vec::new();
    v.push(83);
    v.push(117);
    v.push(98);
    v.push(106);
    v.push(101);
    v.push(99);
    v.push(116);
    v.push(58);
    v.push(32);
    proof {
        assert(v@ =~= lit_subject());
    }
    v
}

/// The bytes of the `Message-ID:` header label and opening angle bracket.
pub open spec fn lit_msgid() -> Seq<u8> {
    seq![77u8, 101u8, 115u8, 115u8, 97u8, 103u8, 101u8, 45u8, 73u8, 68u8, 58u8, 32u8, 60u8]
}

pub fn mk_lit_msgid() -> (r: Vec<u8>)
    ensures
        r@ == lit_msgid(),
{
    let mut v: Vec<u8> = Vec::new();
    v.push(77);
    v.push(101);
    v.push(115);
    v.push(115);
    v.push(97);
    v.push(103);
    v.push(101);
    v.push(45);
    v.push(73);
    v.push(68);
    v.push(58);
    v.push(32);
    v.push(60);
    proof {
        assert(v@ =~= lit_msgid());
    }
    v
}

/// The bytes of the host part and closing angle bracket of the message id.
pub open spec fn lit_idhost() -> Seq<u8> {
    seq![64u8, 103u8, 112u8, 103u8, 109u8, 105u8, 109u8, 101u8, 62u8]
}

pub fn mk_lit_idhost() -> (r: Vec<u8>)
    ensures
        r@ == lit_idhost(),
{
    let mut v: Vec<u8> = Vec::new();
    v.push(64);
    v.push(103);
    v.push(112);
    v.push(103);
    v.push(109);
    v.push(105);
    v.push(109);
    v.push(101);
    v.push(62);
    proof {
        assert(v@ =~= lit_idhost());
    }
    v
}

/// The bytes of the `Date:` header label.
pub open spec fn lit_date() -> Seq<u8> {
    seq![68u8, 97u8, 116u8, 101u8, 58u8, 32u8]
}

pub fn mk_lit_date() -> (r: Vec<u8>)
    ensures
        r@ == lit_date(),
{
    let mut v: Vec<u8> = Vec::new();
    v.push(68);
    v.push(97);
    v.push(116);
    v.push(101);
    v.push(58);
    v.push(32);
    proof {
        assert(v@ =~= lit_date());
    }
    v
}

/// The bytes of the `Content-Type:` header of the container, up to the opening quote of the boundary.
pub open spec fn lit_ctype() -> Seq<u8> {
    seq![67u8, 111u8, 110u8, 116u8, 101u8, 110u8, 116u8, 45u8, 84u8, 121u8, 112u8, 101u8, 58u8, 32u8, 109u8, 117u8, 108u8, 116u8, 105u8, 112u8, 97u8, 114u8, 116u8, 47u8, 101u8, 110u8, 99u8, 114u8, 121u8, 112u8, 116u8, 101u8, 100u8, 59u8, 32u8, 112u8, 114u8, 111u8, 116u8, 111u8, 99u8, 111u8, 108u8, 61u8, 34u8, 97u8, 112u8, 112u8, 108u8, 105u8, 99u8, 97u8, 116u8, 105u8, 111u8, 110u8, 47u8, 112u8, 103u8, 112u8, 45u8, 101u8, 110u8, 99u8, 114u8, 121u8, 112u8, 116u8, 101u8, 100u8, 34u8, 59u8, 32u8, 98u8, 111u8, 117u8, 110u8, 100u8, 97u8, 114u8, 121u8, 61u8, 34u8]
}

pub fn mk_lit_ctype() -> (r: Vec<u8>)
    ensures
        r@ == lit_ctype(),
{
    let mut v: Vec<u8> = Vec::new();
    v.push(67);
    v.push(111);
    v.push(110);
    v.push(116);
    v.push(101);
    v.push(110);
    v.push(116);
    v.push(45);
    v.push(84);
    v.push(121);
    v.push(112);
    v.push(101);
    v.push(58);
    v.push(32);
    v.push(109);
    v.push(117);
    v.push(108);
    v.push(116);
    v.push(105);
    v.push(112);
    v.push(97);
    v.push(114);
    v.push(116);
    v.push(47);
    v.push(101);
    v.push(110);
    v.push(99);
    v.push(114);
    v.push(121);
    v.push(112);
    v.push(116);
    v.push(101);
    v.push(100);
    v.push(59);
    v.push(32);
    v.push(112);
    v.push(114);
    v.push(111);
    v.push(116);
    v.push(111);
    v.push(99);
    v.push(111);
    v.push(108);
    v.push(61);
    v.push(34);
    v.push(97);
    v.push(112);
    v.push(112);
    v.push(108);
    v.push(105);
    v.push(99);
    v.push(97);
    v.push(116);
    v.push(105);
    v.push(111);
    v.push(110);
    v.push(47);
    v.push(112);
    v.push(103);
    v.push(112);
    v.push(45);
    v.push(101);
    v.push(110);
    v.push(99);
    v.push(114);
    v.push(121);
    v.push(112);
    v.push(116);
    v.push(101);
    v.push(100);
    v.push(34);
    v.push(59);
    v.push(32);
    v.push(98);
    v.push(111);
    v.push(117);
    v.push(110);
    v.push(100);
    v.push(97);
    v.push(114);
    v.push(121);
    v.push(61);
    v.push(34);
    proof {
        assert(v@ =~= lit_ctype());
    }
    v
}

/// The bytes of the `Content-Disposition: inline` header.
pub open spec fn lit_disp() -> Seq<u8> {
    seq![67u8, 111u8, 110u8, 116u8, 101u8, 110u8, 116u8, 45u8, 68u8, 105u8, 115u8, 112u8, 111u8, 115u8, 105u8, 116u8, 105u8, 111u8, 110u8, 58u8, 32u8, 105u8, 110u8, 108u8, 105u8, 110u8, 101u8]
}

pub fn mk_lit_disp() -> (r: Vec<u8>)
    ensures
        r@ == lit_disp(),
{
    let mut v: Vec<u8> = Vec::new();
    v.push(67);
    v.push(111);
    v.push(110);
    v.push(116);
    v.push(101);
    v.push(110);
    v.push(116);
    v.push(45);
    v.push(68);
    v.push(105);
    v.push(115);
    v.push(112);
    v.push(111);
    v.push(115);
    v.push(105);
    v.push(116);
    v.push(105);
    v.push(111);
    v.push(110);
    v.push(58);
    v.push(32);
    v.push(105);
    v.push(110);
    v.push(108);
    v.push(105);
    v.push(110);
    v.push(101);
    proof {
        assert(v@ =~= lit_disp());
    }
    v
}

/// The bytes of the `Content-Type:` header of the version part.
pub open spec fn lit_part_version() -> Seq<u8> {
    seq![67u8, 111u8, 110u8, 116u8, 101u8, 110u8, 116u8, 45u8, 84u8, 121u8, 112u8, 101u8, 58u8, 32u8, 97u8, 112u8, 112u8, 108u8, 105u8, 99u8, 97u8, 116u8, 105u8, 111u8, 110u8, 47u8, 112u8, 103u8, 112u8, 45u8, 101u8, 110u8, 99u8, 114u8, 121u8, 112u8, 116u8, 101u8, 100u8]
}

pub fn mk_lit_part_version() -> (r: Vec<u8>)
    ensures
        r@ == lit_part_version(),
{
    let mut v: Vec<u8> = Vec::new();
    v.push(67);
    v.push(111);
    v.push(110);
    v.push(116);
    v.push(101);
    v.push(110);
    v.push(116);
    v.push(45);
    v.push(84);
    v.push(121);
    v.push(112);
    v.push(101);
    v.push(58);
    v.push(32);
    v.push(97);
    v.push(112);
    v.push(112);
    v.push(108);
    v.push(105);
    v.push(99);
    v.push(97);
    v.push(116);
    v.push(105);
    v.push(111);
    v.push(110);
    v.push(47);
    v.push(112);
    v.push(103);
    v.push(112);
    v.push(45);
    v.push(101);
    v.push(110);
    v.push(99);
    v.push(114);
    v.push(121);
    v.push(112);
    v.push(116);
    v.push(101);
    v.push(100);
    proof {
        assert(v@ =~= lit_part_version());
    }
    v
}

/// The bytes of the `Content-Type:` header of the ciphertext part.
pub open spec fn lit_part_octet() -> Seq<u8> {
    seq![67u8, 111u8, 110u8, 116u8, 101u8, 110u8, 116u8, 45u8, 84u8, 121u8, 112u8, 101u8, 58u8, 32u8, 97u8, 112u8, 112u8, 108u8, 105u8, 99u8, 97u8, 116u8, 105u8, 111u8, 110u8, 47u8, 111u8, 99u8, 116u8, 101u8, 116u8, 45u8, 115u8, 116u8, 114u8, 101u8, 97u8, 109u8]
}

pub fn mk_lit_part_octet() -> (r: Vec<u8>)
    ensures
        r@ == lit_part_octet(),
{
    let mut v: Vec<u8> = Vec::new();
    v.push(67);
    v.push(111);
    v.push(110);
    v.push(116);
    v.push(101);
    v.push(110);
    v.push(116);
    v.push(45);
    v.push(84);
    v.push(121);
    v.push(112);
    v.push(101);
    v.push(58);
    v.push(32);
    v.push(97);
    v.push(112);
    v.push(112);
    v.push(108);
    v.push(105);
    v.push(99);
    v.push(97);
    v.push(116);
    v.push(105);
    v.push(111);
    v.push(110);
    v.push(47);
    v.push(111);
    v.push(99);
    v.push(116);
    v.push(101);
    v.push(116);
    v.push(45);
    v.push(115);
    v.push(116);
    v.push(114);
    v.push(101);
    v.push(97);
    v.push(109);
    proof {
        assert(v@ =~= lit_part_octet());
    }
    v
}

/// The bytes of the `Content-Transfer-Encoding:` header of the ciphertext part.
pub open spec fn lit_part_enc() -> Seq<u8> {
    seq![67u8, 111u8, 110u8, 116u8, 101u8, 110u8, 116u8, 45u8, 84u8, 114u8, 97u8, 110u8, 115u8, 102u8, 101u8, 114u8, 45u8, 69u8, 110u8, 99u8, 111u8, 100u8, 105u8, 110u8, 103u8, 58u8, 32u8, 55u8, 98u8, 105u8, 116u8]
}

pub fn mk_lit_part_enc() -> (r: Vec<u8>)
    ensures
        r@ == lit_part_enc(),
{
    let mut v: Vec<u8> = Vec::new();
    v.push(67);
    v.push(111);
    v.push(110);
    v.push(116);
    v.push(101);
    v.push(110);
    v.push(116);
    v.push(45);
    v.push(84);
    v.push(114);
    v.push(97);
    v.push(110);
    v.push(115);
    v.push(102);
    v.push(101);
    v.push(114);
    v.push(45);
    v.push(69);
    v.push(110);
    v.push(99);
    v.push(111);
    v.push(100);
    v.push(105);
    v.push(110);
    v.push(103);
    v.push(58);
    v.push(32);
    v.push(55);
    v.push(98);
    v.push(105);
    v.push(116);
    proof {
        assert(v@ =~= lit_part_enc());
    }
    v
}

/// The bytes of the fixed body of the version part.
pub open spec fn version_body() -> Seq<u8> {
    seq![86u8, 101u8, 114u8, 115u8, 105u8, 111u8, 110u8, 58u8, 32u8, 49u8]
}

pub fn mk_version_body() -> (r: Vec<u8>)
    ensures
        r@ == version_body(),
{
    let mut v: Vec<u8> = Vec::new();
    v.push(86);
    v.push(101);
    v.push(114);
    v.push(115);
    v.push(105);
    v.push(111);
    v.push(110);
    v.push(58);
    v.push(32);
    v.push(49);
    proof {
        assert(v@ =~= version_body());
    }
    v
}

} // verus!
