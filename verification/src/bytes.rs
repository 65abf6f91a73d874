use vstd::prelude::*;

verus! {

/// A fresh vector holding the bytes of `s`.
pub fn copy_bytes(s: &[u8]) -> (r: Vec<u8>)
    ensures
        r@ == s@,
{
    let mut r: Vec<u8> = Vec::new();
    let mut i: usize = 0;
    while i < s.len()
        invariant
            i <= s.len(),
            r@ == s@.subrange(0, i as int),
        decreases s.len() - i,
    {
        r.push(s[i]);
        i = i + 1;
    }
    assert(r@ =~= s@);
    r
}

/// Appends the bytes of `s` to `v`.
pub fn append_bytes(v: &mut Vec<u8>, s: &[u8])
    ensures
        final(v)@ == old(v)@ + s@,
{
    let ghost start = v@;
    let mut i: usize = 0;
    while i < s.len()
        invariant
            i <= s.len(),
            v@ == start + s@.subrange(0, i as int),
        decreases s.len() - i,
    {
        v.push(s[i]);
        i = i + 1;
        assert(v@ =~= start + s@.subrange(0, i as int));
    }
    assert(s@.subrange(0, s.len() as int) =~= s@);
}

/// Whether `a` and `b` hold the same bytes.
pub fn bytes_eq(a: &[u8], b: &[u8]) -> (r: bool)
    ensures
        r == (a@ == b@),
{
    if a.len() != b.len() {
        return false;
    }
    let mut i: usize = 0;
    while i < a.len()
        invariant
            i <= a.len(),
            a.len() == b.len(),
            forall|j: int| 0 <= j < i ==> a@[j] == b@[j],
        decreases a.len() - i,
    {
        if a[i] != b[i] {
            return false;
        }
        i = i + 1;
    }
    assert(a@ =~= b@);
    true
}

/// The big-endian bytes of `x`, most significant first.
pub open spec fn be_bytes(x: u64) -> Seq<u8> {
    seq![
        (x >> 56u64) as u8,
        (x >> 48u64) as u8,
        (x >> 40u64) as u8,
        (x >> 32u64) as u8,
        (x >> 24u64) as u8,
        (x >> 16u64) as u8,
        (x >> 8u64) as u8,
        x as u8,
    ]
}

/// The big-endian bytes of `x`.
pub fn u64_to_be_bytes(x: u64) -> (r: [u8; 8])
    ensures
        r@ == be_bytes(x),
{
    let r: [u8; 8] = [
        (x >> 56u64) as u8,
        (x >> 48u64) as u8,
        (x >> 40u64) as u8,
        (x >> 32u64) as u8,
        (x >> 24u64) as u8,
        (x >> 16u64) as u8,
        (x >> 8u64) as u8,
        x as u8,
    ];
    assert(r@ =~= be_bytes(x));
    r
}

/// The big-endian bytes of `x` are eight bytes that read back as `x`, most
/// significant first.
pub proof fn lemma_be_bytes_read_back(x: u64)
    ensures
        be_bytes(x).len() == 8,
        x == ((((((be_bytes(x)[0] as int * 256 + be_bytes(x)[1] as int) * 256 + be_bytes(x)[2] as int) * 256
            + be_bytes(x)[3] as int) * 256 + be_bytes(x)[4] as int) * 256 + be_bytes(x)[5] as int) * 256
            + be_bytes(x)[6] as int) * 256 + be_bytes(x)[7] as int,
{
    let b0 = (x >> 56u64) as u8;
    let b1 = (x >> 48u64) as u8;
    let b2 = (x >> 40u64) as u8;
    let b3 = (x >> 32u64) as u8;
    let b4 = (x >> 24u64) as u8;
    let b5 = (x >> 16u64) as u8;
    let b6 = (x >> 8u64) as u8;
    let b7 = x as u8;
    assert(x == ((((((b0 as u64 * 256 + b1 as u64) * 256 + b2 as u64) * 256 + b3 as u64) * 256 + b4 as u64)
        * 256 + b5 as u64) * 256 + b6 as u64) * 256 + b7 as u64) by (bit_vector)
        requires
            b0 == (x >> 56u64) as u8,
            b1 == (x >> 48u64) as u8,
            b2 == (x >> 40u64) as u8,
            b3 == (x >> 32u64) as u8,
            b4 == (x >> 24u64) as u8,
            b5 == (x >> 16u64) as u8,
            b6 == (x >> 8u64) as u8,
            b7 == x as u8,
    ;
}

} // verus!
