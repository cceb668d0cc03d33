//! Offline-mode identity derivation: the UUID presented at login is a
//! content hash of the player name with the version nibble forced to 3 and
//! the variant bits forced to binary 10.
use vstd::prelude::*;
use vstd::pervasive::VecAdditionalExecFns;
use vstd::string::StrSliceExecFns;
use vstd::utf8::encode_utf8;

verus! {

/// The digest the outside hash function computes, named: it is a function of
/// the input bytes alone.
pub uninterp spec fn md5_of(data: Seq<u8>) -> Seq<u8>;

/// Relies on md5::compute: the MD5 digest of the input bytes, always 16
/// bytes long.
#[verifier::external_body]
fn md5_digest(data: &Vec<u8>) -> (r: Vec<u8>)
    ensures
        r@ == md5_of(data@),
        r@.len() == 16,
{
    md5::compute(data.as_slice()).0.to_vec()
}

/// The bytes hashed for an offline-mode identity: the fixed prefix followed
/// by the bytes of the player name.
pub open spec fn offline_digest_input(name: Seq<u8>) -> Seq<u8> {
    encode_utf8("OfflinePlayer:"@) + name
}

/// The digest with byte 6 patched so its high nibble is 3 (version 3) and
/// byte 8 patched so its two most-significant bits are binary 10 (the
/// standard variant).
pub open spec fn patched_uuid(d: Seq<u8>) -> Seq<u8> {
    d.update(6, ((d[6] & 0x0f) | 0x30) as u8).update(8, ((d[8] & 0x3f) | 0x80) as u8)
}

/// The 16 UUID bytes derived for an offline-mode identity.
pub fn offline_uuid(name: &Vec<u8>) -> (r: Vec<u8>)
    ensures
        r@.len() == 16,
        r@ == patched_uuid(md5_of(offline_digest_input(name@))),
        r@[6] >> 4 == 3,
        r@[8] >> 6 == 2,
{
    let mut input: Vec<u8> = "OfflinePlayer:".as_bytes_vec();
    let ghost prefix = input@;
    let mut i: usize = 0;
    while i < name.len()
        invariant
            i <= name@.len(),
            input@ == prefix + name@.subrange(0, i as int),
        decreases name@.len() - i,
    {
        input.push(name[i]);
        proof {
            assert(prefix + name@.subrange(0, i as int + 1) =~= (prefix + name@.subrange(
                0,
                i as int,
            )).push(name@[i as int]));
        }
        i += 1;
    }
    proof {
        assert(name@.subrange(0, name@.len() as int) =~= name@);
        assert(input@ == offline_digest_input(name@));
    }
    let mut d = md5_digest(&input);
    let b6 = d[6];
    let b8 = d[8];
    d.set(6, (b6 & 0x0f) | 0x30);
    d.set(8, (b8 & 0x3f) | 0x80);
    proof {
        assert(((b6 & 0x0f) | 0x30) >> 4 == 3) by (bit_vector);
        assert(((b8 & 0x3f) | 0x80) >> 6 == 2) by (bit_vector);
    }
    d
}

} // verus!
