//! Byte-level helpers: integer values of byte sequences in both endiannesses,
//! and verified copy / comparison routines used by the decoder and verifier.

use vstd::prelude::*;

verus! {

/// Integer value of a byte sequence read little-endian (first byte least
/// significant).
pub open spec fn le_value(s: Seq<u8>) -> nat
    decreases s.len(),
{
    if s.len() == 0 {
        0
    } else {
        (s[0] + 256 * le_value(s.subrange(1, s.len() as int))) as nat
    }
}

/// Integer value of a byte sequence read big-endian (last byte least
/// significant).
pub open spec fn be_value(s: Seq<u8>) -> nat
    decreases s.len(),
{
    if s.len() == 0 {
        0
    } else {
        (256 * be_value(s.subrange(0, s.len() - 1)) + s[s.len() - 1]) as nat
    }
}

pub proof fn lemma_le_value1(s: Seq<u8>)
    requires
        s.len() == 1,
    ensures
        le_value(s) == s[0],
{
    assert(le_value(s.subrange(1, 1)) == 0);
}

pub proof fn lemma_le_value2(s: Seq<u8>)
    requires
        s.len() == 2,
    ensures
        le_value(s) == s[0] + 256 * s[1],
{
    let s1 = s.subrange(1, 2);
    lemma_le_value1(s1);
    assert(le_value(s) == s[0] + 256 * le_value(s1));
    assert(s1[0] == s[1]);
}

pub proof fn lemma_le_value4(s: Seq<u8>)
    requires
        s.len() == 4,
    ensures
        le_value(s) == s[0] + 256 * s[1] + 65536 * s[2] + 16777216 * s[3],
{
    let s1 = s.subrange(1, 4);
    let s2 = s1.subrange(1, 3);
    let s3 = s2.subrange(1, 2);
    lemma_le_value1(s3);
    assert(le_value(s2) == s2[0] + 256 * le_value(s3));
    assert(le_value(s1) == s1[0] + 256 * le_value(s2));
    assert(le_value(s) == s[0] + 256 * le_value(s1));
    assert(s1[0] == s[1] && s2[0] == s[2] && s3[0] == s[3]);
}

pub proof fn lemma_le_value8(s: Seq<u8>)
    requires
        s.len() == 8,
    ensures
        le_value(s) == s[0] + 256 * s[1] + 65536 * s[2] + 16777216 * s[3]
            + 0x100000000 * s[4] + 0x10000000000 * s[5] + 0x1000000000000 * s[6]
            + 0x100000000000000 * s[7],
{
    let s1 = s.subrange(1, 8);
    let s2 = s1.subrange(1, 7);
    let s3 = s2.subrange(1, 6);
    let s4 = s3.subrange(1, 5);
    let s5 = s4.subrange(1, 4);
    let s6 = s5.subrange(1, 3);
    let s7 = s6.subrange(1, 2);
    lemma_le_value1(s7);
    assert(le_value(s6) == s6[0] + 256 * le_value(s7));
    assert(le_value(s5) == s5[0] + 256 * le_value(s6));
    assert(le_value(s4) == s4[0] + 256 * le_value(s5));
    assert(le_value(s3) == s3[0] + 256 * le_value(s4));
    assert(le_value(s2) == s2[0] + 256 * le_value(s3));
    assert(le_value(s1) == s1[0] + 256 * le_value(s2));
    assert(le_value(s) == s[0] + 256 * le_value(s1));
    assert(s1[0] == s[1] && s2[0] == s[2] && s3[0] == s[3] && s4[0] == s[4]
        && s5[0] == s[5] && s6[0] == s[6] && s7[0] == s[7]);
}

pub proof fn lemma_be_value16(s: Seq<u8>)
    requires
        s.len() == 16,
    ensures
        be_value(s) == s[15] + 0x100 * s[14] + 0x10000 * s[13] + 0x1000000 * s[12]
            + 0x100000000 * s[11] + 0x10000000000 * s[10] + 0x1000000000000 * s[9]
            + 0x100000000000000 * s[8] + 0x10000000000000000 * s[7]
            + 0x1000000000000000000 * s[6] + 0x100000000000000000000 * s[5]
            + 0x10000000000000000000000 * s[4] + 0x1000000000000000000000000 * s[3]
            + 0x100000000000000000000000000 * s[2] + 0x10000000000000000000000000000 * s[1]
            + 0x1000000000000000000000000000000 * s[0],
{
    let p15 = s.subrange(0, 15);
    let p14 = p15.subrange(0, 14);
    let p13 = p14.subrange(0, 13);
    let p12 = p13.subrange(0, 12);
    let p11 = p12.subrange(0, 11);
    let p10 = p11.subrange(0, 10);
    let p9 = p10.subrange(0, 9);
    let p8 = p9.subrange(0, 8);
    let p7 = p8.subrange(0, 7);
    let p6 = p7.subrange(0, 6);
    let p5 = p6.subrange(0, 5);
    let p4 = p5.subrange(0, 4);
    let p3 = p4.subrange(0, 3);
    let p2 = p3.subrange(0, 2);
    let p1 = p2.subrange(0, 1);
    assert(be_value(p1.subrange(0, 0)) == 0);
    assert(be_value(p1) == p1[0]);
    assert(be_value(p2) == 256 * be_value(p1) + p2[1]);
    assert(be_value(p3) == 256 * be_value(p2) + p3[2]);
    assert(be_value(p4) == 256 * be_value(p3) + p4[3]);
    assert(be_value(p5) == 256 * be_value(p4) + p5[4]);
    assert(be_value(p6) == 256 * be_value(p5) + p6[5]);
    assert(be_value(p7) == 256 * be_value(p6) + p7[6]);
    assert(be_value(p8) == 256 * be_value(p7) + p8[7]);
    assert(be_value(p9) == 256 * be_value(p8) + p9[8]);
    assert(be_value(p10) == 256 * be_value(p9) + p10[9]);
    assert(be_value(p11) == 256 * be_value(p10) + p11[10]);
    assert(be_value(p12) == 256 * be_value(p11) + p12[11]);
    assert(be_value(p13) == 256 * be_value(p12) + p13[12]);
    assert(be_value(p14) == 256 * be_value(p13) + p14[13]);
    assert(be_value(p15) == 256 * be_value(p14) + p15[14]);
    assert(be_value(s) == 256 * be_value(p15) + s[15]);
    assert(p1[0] == s[0] && p2[1] == s[1] && p3[2] == s[2] && p4[3] == s[3]
        && p5[4] == s[4] && p6[5] == s[5] && p7[6] == s[6] && p8[7] == s[7]
        && p9[8] == s[8] && p10[9] == s[9] && p11[10] == s[10] && p12[11] == s[11]
        && p13[12] == s[12] && p14[13] == s[13] && p15[14] == s[14]);
}

/// Copies `src[from..to]` into a fresh vector.
pub fn copy_range(src: &Vec<u8>, from: usize, to: usize) -> (out: Vec<u8>)
    requires
        from <= to,
        to <= src@.len(),
    ensures
        out@ == src@.subrange(from as int, to as int),
{
    let mut out: Vec<u8> = Vec::new();
    let mut i: usize = from;
    while i < to
        invariant
            from <= i <= to,
            to <= src@.len(),
            out@ == src@.subrange(from as int, i as int),
        decreases to - i,
    {
        out.push(src[i]);
        i = i + 1;
        assert(out@ =~= src@.subrange(from as int, i as int));
    }
    out
}

/// Copies a whole vector of bytes.
pub fn copy_all(src: &Vec<u8>) -> (out: Vec<u8>)
    ensures
        out@ == src@,
{
    let out = copy_range(src, 0, src.len());
    assert(src@.subrange(0, src@.len() as int) =~= src@);
    out
}

/// The concatenation of two byte vectors.
pub fn concat_bytes(a: &Vec<u8>, b: &Vec<u8>) -> (out: Vec<u8>)
    ensures
        out@ == a@ + b@,
{
    let mut out = copy_all(a);
    let mut i: usize = 0;
    while i < b.len()
        invariant
            i <= b@.len(),
            out@ == a@ + b@.subrange(0, i as int),
        decreases b@.len() - i,
    {
        out.push(b[i]);
        i = i + 1;
        assert(out@ =~= a@ + b@.subrange(0, i as int));
    }
    assert(b@.subrange(0, b@.len() as int) =~= b@);
    out
}

/// Byte-for-byte equality of two vectors.
pub fn bytes_eq(a: &Vec<u8>, b: &Vec<u8>) -> (r: bool)
    ensures
        r <==> a@ == b@,
{
    if a.len() != b.len() {
        return false;
    }
    let mut i: usize = 0;
    while i < a.len()
        invariant
            a@.len() == b@.len(),
            i <= a@.len(),
            forall|j: int| 0 <= j < i ==> a@[j] == b@[j],
        decreases a@.len() - i,
    {
        if a[i] != b[i] {
            return false;
        }
        i = i + 1;
    }
    assert(a@ =~= b@);
    true
}

} // verus!
