//! Big-endian byte strings read as natural numbers, and the byte helpers the
//! protocol code shares.
use vstd::prelude::*;

verus! {

/// The natural number that `s` encodes, most significant byte first.
pub open spec fn be_value(s: Seq<u8>) -> nat
    decreases s.len(),
{
    if s.len() == 0 {
        0
    } else {
        be_value(s.drop_last()) * 256 + s.last() as nat
    }
}

/// The eight big-endian bytes of a `u64`, as `u64::to_be_bytes` lays them out.
pub open spec fn u64_be_bytes(x: u64) -> Seq<u8> {
    seq![
        (x >> 56u64) as u8,
        (x >> 48u64) as u8,
        (x >> 40u64) as u8,
        (x >> 32u64) as u8,
        (x >> 24u64) as u8,
        (x >> 16u64) as u8,
        (x >> 8u64) as u8,
        x as u8,
    ]
}

/// An encoding is zero exactly when all its bytes are.
pub proof fn lemma_be_value_zero(s: Seq<u8>)
    ensures
        be_value(s) == 0 <==> (forall|i: int| 0 <= i < s.len() ==> s[i] == 0),
    decreases s.len(),
{
    if s.len() > 0 {
        let init = s.drop_last();
        lemma_be_value_zero(init);
        if be_value(s) == 0 {
            assert forall|i: int| 0 <= i < s.len() implies s[i] == 0 by {
                if i < init.len() {
                    assert(s[i] == init[i]);
                }
            }
        } else {
            if forall|i: int| 0 <= i < s.len() ==> s[i] == 0 {
                assert forall|i: int| 0 <= i < init.len() implies init[i] == 0 by {
                    assert(s[i] == init[i]);
                }
                assert(s.last() == s[s.len() - 1]);
            }
        }
    }
}

/// Leading zero bytes do not change the encoded number.
pub proof fn lemma_be_value_leading_zeros(z: Seq<u8>, s: Seq<u8>)
    requires
        forall|i: int| 0 <= i < z.len() ==> z[i] == 0,
    ensures
        be_value(z + s) == be_value(s),
    decreases s.len(),
{
    if s.len() == 0 {
        assert(z + s == z);
        lemma_be_value_zero(z);
    } else {
        let init = s.drop_last();
        lemma_be_value_leading_zeros(z, init);
        assert((z + s).drop_last() == z + init);
        assert((z + s).last() == s.last());
    }
}

/// Two encodings of the same length and value are the same bytes.
pub proof fn lemma_be_value_injective(a: Seq<u8>, b: Seq<u8>)
    requires
        a.len() == b.len(),
        be_value(a) == be_value(b),
    ensures
        a == b,
    decreases a.len(),
{
    if a.len() > 0 {
        let ia = a.drop_last();
        let ib = b.drop_last();
        let la = a.last();
        let lb = b.last();
        vstd::arithmetic::div_mod::lemma_fundamental_div_mod_converse(
            be_value(a) as int,
            256,
            be_value(ia) as int,
            la as int,
        );
        vstd::arithmetic::div_mod::lemma_fundamental_div_mod_converse(
            be_value(b) as int,
            256,
            be_value(ib) as int,
            lb as int,
        );
        lemma_be_value_injective(ia, ib);
        assert(a == ia.push(la));
        assert(b == ib.push(lb));
    }
}

/// The big-endian bytes of a `u64` encode that `u64`.
pub proof fn lemma_u64_be_bytes_value(x: u64)
    ensures
        be_value(u64_be_bytes(x)) == x,
{
    let s = u64_be_bytes(x);
    let b0 = (x >> 56u64) as u8;
    let b1 = (x >> 48u64) as u8;
    let b2 = (x >> 40u64) as u8;
    let b3 = (x >> 32u64) as u8;
    let b4 = (x >> 24u64) as u8;
    let b5 = (x >> 16u64) as u8;
    let b6 = (x >> 8u64) as u8;
    let b7 = x as u8;
    assert(s.drop_last().drop_last().drop_last().drop_last().drop_last().drop_last().drop_last()
        =~= seq![b0]);
    assert(s.drop_last().drop_last().drop_last().drop_last().drop_last().drop_last() =~= seq![b0, b1]);
    assert(s.drop_last().drop_last().drop_last().drop_last().drop_last() =~= seq![b0, b1, b2]);
    assert(s.drop_last().drop_last().drop_last().drop_last() =~= seq![b0, b1, b2, b3]);
    assert(s.drop_last().drop_last().drop_last() =~= seq![b0, b1, b2, b3, b4]);
    assert(s.drop_last().drop_last() =~= seq![b0, b1, b2, b3, b4, b5]);
    assert(s.drop_last() =~= seq![b0, b1, b2, b3, b4, b5, b6]);
    assert(seq![b0].drop_last() =~= Seq::<u8>::empty());
    reveal_with_fuel(be_value, 9);
    assert(be_value(seq![b0]) == b0);
    assert(x == ((((((b0 as u64 * 256 + b1 as u64) * 256 + b2 as u64) * 256 + b3 as u64) * 256
        + b4 as u64) * 256 + b5 as u64) * 256 + b6 as u64) * 256 + b7 as u64) by (bit_vector)
        requires
            b0 == (x >> 56u64) as u8,
            b1 == (x >> 48u64) as u8,
            b2 == (x >> 40u64) as u8,
            b3 == (x >> 32u64) as u8,
            b4 == (x >> 24u64) as u8,
            b5 == (x >> 16u64) as u8,
            b6 == (x >> 8u64) as u8,
            b7 == x as u8,
    ;
}

/// The big-endian bytes of `x`.
pub fn u64_to_be_bytes(x: u64) -> (r: [u8; 8])
    ensures
        r@ == u64_be_bytes(x),
{
    let r = [
        (x >> 56u64) as u8,
        (x >> 48u64) as u8,
        (x >> 40u64) as u8,
        (x >> 32u64) as u8,
        (x >> 24u64) as u8,
        (x >> 16u64) as u8,
        (x >> 8u64) as u8,
        x as u8,
    ];
    assert(r@ =~= u64_be_bytes(x));
    r
}

/// Appends every byte of `src` to `dst`.
pub fn append_bytes(dst: &mut Vec<u8>, src: &[u8])
    ensures
        final(dst)@ == old(dst)@ + src@,
{
    let ghost start = dst@;
    let mut i: usize = 0;
    while i < src.len()
        invariant
            i <= src@.len(),
            dst@ == start + src@.take(i as int),
        decreases src@.len() - i,
    {
        dst.push(src[i]);
        i = i + 1;
        assert(src@.take(i as int) == src@.take(i - 1).push(src@[i - 1]));
    }
    assert(src@.take(src@.len() as int) == src@);
}

} // verus!

verus! {

/// Whether two 32-byte strings are equal.
pub fn bytes32_eq(a: &[u8; 32], b: &[u8; 32]) -> (r: bool)
    ensures
        r == (a@ == b@),
{
    let mut j: usize = 0;
    while j < 32
        invariant
            j <= 32,
            forall|i: int| 0 <= i < j ==> a@[i] == b@[i],
        decreases 32 - j,
    {
        if a[j] != b[j] {
            assert(a@[j as int] != b@[j as int]);
            return false;
        }
        j = j + 1;
    }
    assert(a@ =~= b@);
    true
}

} // verus!
