//! The wire codec for packet bodies: unsigned variable-length integers
//! (seven bits per byte, least significant group first, the high bit marking
//! continuation), length-prefixed byte strings, and big-endian shorts.
use vstd::prelude::*;

verus! {

/// The wire encoding of an unsigned protocol integer.
pub open spec fn varint_bytes(n: nat) -> Seq<u8>
    decreases n,
{
    if n < 0x80 {
        seq![n as u8]
    } else {
        seq![((n % 0x80) + 0x80) as u8] + varint_bytes(n / 0x80)
    }
}

/// A length-prefixed byte string: the length as a varint, then the bytes.
pub open spec fn lp_bytes(b: Seq<u8>) -> Seq<u8> {
    varint_bytes(b.len()) + b
}

/// A big-endian unsigned short.
pub open spec fn be16(v: u16) -> Seq<u8> {
    seq![(v >> 8) as u8, (v & 0xff) as u8]
}

/// The value and width of the varint at the front of `s`, when a complete one
/// is there.
pub open spec fn parse_varint(s: Seq<u8>) -> Option<(nat, nat)>
    decreases s.len(),
{
    if s.len() == 0 {
        None
    } else if s[0] < 0x80 {
        Some((s[0] as nat, 1nat))
    } else {
        match parse_varint(s.skip(1)) {
            Some((v, w)) => Some((((s[0] - 0x80) + 0x80 * v) as nat, (w + 1) as nat)),
            None => None,
        }
    }
}

/// The varint at the front of `s` restricted to values that fit 32 bits: what
/// a reader of this protocol accepts.
pub open spec fn parse_varint_u32(s: Seq<u8>) -> Option<(nat, nat)> {
    match parse_varint(s) {
        Some((v, w)) => if v <= 0xffff_ffff {
            Some((v, w))
        } else {
            None
        },
        None => None,
    }
}

/// The payload and total width of the length-prefixed byte string at the
/// front of `s`, when a complete one is there.
pub open spec fn parse_lp_bytes(s: Seq<u8>) -> Option<(Seq<u8>, nat)> {
    match parse_varint_u32(s) {
        Some((len, w)) => if w + len <= s.len() {
            Some((s.subrange(w as int, (w + len) as int), (w + len) as nat))
        } else {
            None
        },
        None => None,
    }
}

/// Reading undoes writing: a written varint at the front of any buffer
/// parses back to the value written, consuming exactly its own bytes.
pub proof fn lemma_varint_roundtrip(n: nat, rest: Seq<u8>)
    ensures
        parse_varint(varint_bytes(n) + rest) == Some((n, varint_bytes(n).len())),
    decreases n,
{
    let e = varint_bytes(n);
    let s = e + rest;
    if n < 0x80 {
        assert(s[0] == n as u8);
    } else {
        let b = ((n % 0x80) + 0x80) as u8;
        assert(s[0] == b);
        assert(s.skip(1) =~= varint_bytes(n / 0x80) + rest);
        lemma_varint_roundtrip(n / 0x80, rest);
        assert((b - 0x80) + 0x80 * (n / 0x80) == n) by {
            assert(n % 0x80 + 0x80 * (n / 0x80) == n) by (nonlinear_arith);
        }
    }
}

/// Append the varint encoding of `n`.
pub fn write_varint(out: &mut Vec<u8>, n: u32)
    ensures
        final(out)@ == old(out)@ + varint_bytes(n as nat),
{
    let mut v = n;
    while v >= 0x80
        invariant
            out@ + varint_bytes(v as nat) == old(out)@ + varint_bytes(n as nat),
        decreases v,
    {
        let ghost pre = out@;
        out.push(((v % 0x80) + 0x80) as u8);
        proof {
            assert(varint_bytes(v as nat) == seq![(((v as nat) % 0x80) + 0x80) as u8]
                + varint_bytes((v as nat) / 0x80));
            assert(out@ + varint_bytes((v / 0x80) as nat) =~= pre + varint_bytes(v as nat));
        }
        v = v / 0x80;
    }
    out.push(v as u8);
    proof {
        assert(varint_bytes(v as nat) =~= seq![v as u8]);
        assert(final(out)@ =~= old(out)@ + varint_bytes(n as nat));
    }
}

/// Append all of `b`.
pub fn write_bytes(out: &mut Vec<u8>, b: &Vec<u8>)
    ensures
        final(out)@ == old(out)@ + b@,
{
    let mut i: usize = 0;
    while i < b.len()
        invariant
            i <= b@.len(),
            out@ == old(out)@ + b@.subrange(0, i as int),
        decreases b@.len() - i,
    {
        let ghost pre = out@;
        out.push(b[i]);
        proof {
            assert(pre.push(b@[i as int]) =~= old(out)@ + b@.subrange(0, i as int + 1));
        }
        i += 1;
    }
    proof {
        assert(b@.subrange(0, b@.len() as int) =~= b@);
    }
}

/// Append `b` as a length-prefixed byte string.
pub fn write_lp_bytes(out: &mut Vec<u8>, b: &Vec<u8>)
    requires
        b@.len() <= 0xffff_ffff,
    ensures
        final(out)@ == old(out)@ + lp_bytes(b@),
{
    write_varint(out, b.len() as u32);
    write_bytes(out, b);
    proof {
        assert(final(out)@ =~= old(out)@ + lp_bytes(b@));
    }
}

/// Append `v` as a big-endian unsigned short.
pub fn write_u16_be(out: &mut Vec<u8>, v: u16)
    ensures
        final(out)@ == old(out)@ + be16(v),
{
    out.push((v >> 8) as u8);
    out.push((v & 0xff) as u8);
    proof {
        assert(final(out)@ =~= old(out)@ + be16(v));
    }
}

/// Decode the varint that starts at `pos`; `None` exactly when no complete
/// varint is there or its value does not fit 32 bits.
pub fn read_varint(buf: &Vec<u8>, pos: usize) -> (r: Option<(u32, usize)>)
    requires
        pos <= buf@.len(),
    ensures
        (r is Some) == (parse_varint_u32(buf@.skip(pos as int)) is Some),
        r matches Some((val, w)) ==> parse_varint_u32(buf@.skip(pos as int)) == Some(
            (val as nat, w as nat),
        ) && 1 <= w && pos + w <= buf@.len(),
    decreases buf@.len() - pos,
{
    let ghost s = buf@.skip(pos as int);
    if pos >= buf.len() {
        return None;
    }
    let b = buf[pos];
    proof {
        assert(s[0] == buf@[pos as int]);
    }
    if b < 0x80 {
        Some((b as u32, 1))
    } else {
        proof {
            assert(s.skip(1) =~= buf@.skip(pos as int + 1));
        }
        match read_varint(buf, pos + 1) {
            None => None,
            Some((v, w)) => {
                let low = (b - 0x80) as u32;
                if v > (u32::MAX - low) / 0x80 {
                    proof {
                        assert(0x80 * ((u32::MAX - low) as nat / 0x80) + 0x7f >= (u32::MAX
                            - low) as nat) by (nonlinear_arith);
                        assert(0x80 * (v as nat) >= 0x80 * (((u32::MAX - low) as nat / 0x80) + 1))
                            by (nonlinear_arith)
                            requires
                                v as nat >= ((u32::MAX - low) as nat / 0x80) + 1,
                        ;
                    }
                    None
                } else {
                    proof {
                        assert(0x80 * (v as nat) <= 0x80 * ((u32::MAX - low) as nat / 0x80))
                            by (nonlinear_arith)
                            requires
                                v as nat <= (u32::MAX - low) as nat / 0x80,
                        ;
                        assert(0x80 * ((u32::MAX - low) as nat / 0x80) <= (u32::MAX - low) as nat)
                            by (nonlinear_arith);
                    }
                    Some((low + 0x80 * v, w + 1))
                }
            },
        }
    }
}

/// Decode the length-prefixed byte string that starts at `pos`; `None`
/// exactly when no complete one is there.
pub fn read_lp_bytes(buf: &Vec<u8>, pos: usize) -> (r: Option<(Vec<u8>, usize)>)
    requires
        pos <= buf@.len(),
    ensures
        (r is Some) == (parse_lp_bytes(buf@.skip(pos as int)) is Some),
        r matches Some((payload, w)) ==> parse_lp_bytes(buf@.skip(pos as int)) == Some(
            (payload@, w as nat),
        ) && pos + w <= buf@.len(),
{
    let ghost s = buf@.skip(pos as int);
    match read_varint(buf, pos) {
        None => None,
        Some((len, w)) => {
            if (len as usize) > buf.len() - (pos + w) {
                return None;
            }
            let start = pos + w;
            let end = start + len as usize;
            let mut payload: Vec<u8> = Vec::new();
            let mut i: usize = start;
            while i < end
                invariant
                    start <= i <= end,
                    end <= buf@.len(),
                    payload@ == buf@.subrange(start as int, i as int),
                decreases end - i,
            {
                let ghost pre = payload@;
                payload.push(buf[i]);
                proof {
                    assert(pre.push(buf@[i as int]) =~= buf@.subrange(start as int, i as int + 1));
                }
                i += 1;
            }
            proof {
                assert(payload@ =~= s.subrange(w as int, (w + len) as int));
            }
            Some((payload, end - pos))
        },
    }
}

} // verus!
