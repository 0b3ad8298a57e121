//! Byte-string utilities: equality, decimal rendering, zero padding.

use vstd::prelude::*;

verus! {

/// Decimal digits of `n`, most significant first, no leading zeros
/// (`0` renders as the single digit `0`).
pub open spec fn dec_digits(n: nat) -> Seq<u8>
    decreases n,
{
    if n < 10 {
        seq![(48 + n) as u8]
    } else {
        dec_digits(n / 10) + seq![(48 + n % 10) as u8]
    }
}

/// Decimal digits of `n`, zero-padded on the left to at least two places.
pub open spec fn pad2(n: nat) -> Seq<u8> {
    if n < 10 {
        seq![48u8] + dec_digits(n)
    } else {
        dec_digits(n)
    }
}

/// Decimal digits of `n`, zero-padded on the left to at least four places.
pub open spec fn pad4(n: nat) -> Seq<u8> {
    if n < 10 {
        seq![48u8, 48u8, 48u8] + dec_digits(n)
    } else if n < 100 {
        seq![48u8, 48u8] + dec_digits(n)
    } else if n < 1000 {
        seq![48u8] + dec_digits(n)
    } else {
        dec_digits(n)
    }
}

/// Exact byte-string equality.
pub fn bytes_eq(a: &Vec<u8>, b: &Vec<u8>) -> (r: bool)
    ensures
        r == (a@ == b@),
{
    if a.len() != b.len() {
        assert(a@ != b@);
        return false;
    }
    let mut i: usize = 0;
    while i < a.len()
        invariant
            i <= a.len(),
            a.len() == b.len(),
            forall|j: int| 0 <= j < i ==> a@[j] == b@[j],
        decreases a.len() - i,
    {
        if a[i] != b[i] {
            return false;
        }
        i += 1;
    }
    assert(a@ =~= b@);
    true
}

/// Appends a copy of `src` to `out`.
pub fn append_bytes(out: &mut Vec<u8>, src: &Vec<u8>)
    ensures
        final(out)@ == old(out)@ + src@,
{
    let mut i: usize = 0;
    while i < src.len()
        invariant
            i <= src.len(),
            out@ == old(out)@ + src@.take(i as int),
        decreases src.len() - i,
    {
        out.push(src[i]);
        assert(old(out)@ + src@.take(i as int) + seq![src@[i as int]] =~= old(out)@ + src@.take(
            i as int + 1,
        ));
        i += 1;
    }
    assert(src@.take(src@.len() as int) =~= src@);
}

/// A fresh copy of `v`.
pub fn clone_bytes(v: &Vec<u8>) -> (r: Vec<u8>)
    ensures
        r@ == v@,
{
    let r = take_prefix(v, v.len());
    assert(v@.take(v@.len() as int) =~= v@);
    r
}

/// The first `k` bytes of `src`, as a fresh vector.
pub fn take_prefix(src: &Vec<u8>, k: usize) -> (r: Vec<u8>)
    requires
        k <= src.len(),
    ensures
        r@ == src@.take(k as int),
{
    let mut r: Vec<u8> = Vec::new();
    let mut i: usize = 0;
    while i < k
        invariant
            i <= k <= src.len(),
            r@ == src@.take(i as int),
        decreases k - i,
    {
        r.push(src[i]);
        assert(src@.take(i as int) + seq![src@[i as int]] =~= src@.take(i as int + 1));
        i += 1;
    }
    r
}

/// Decimal rendering of a `u64`.
pub fn u64_to_dec(n: u64) -> (r: Vec<u8>)
    ensures
        r@ == dec_digits(n as nat),
    decreases n,
{
    if n < 10 {
        let mut v: Vec<u8> = Vec::new();
        v.push(48 + (n as u8));
        v
    } else {
        let mut v = u64_to_dec(n / 10);
        v.push(48 + ((n % 10) as u8));
        assert(v@ =~= dec_digits((n / 10) as nat) + seq![(48 + n as nat % 10) as u8]);
        v
    }
}

/// Decimal rendering of a `u64`, zero-padded to at least two places.
pub fn u64_to_pad2(n: u64) -> (r: Vec<u8>)
    ensures
        r@ == pad2(n as nat),
{
    if n < 10 {
        let mut v: Vec<u8> = Vec::new();
        v.push(48);
        let mut d = u64_to_dec(n);
        v.append(&mut d);
        assert(v@ =~= pad2(n as nat));
        v
    } else {
        u64_to_dec(n)
    }
}

/// Decimal rendering of a `u64`, zero-padded to at least four places.
pub fn u64_to_pad4(n: u64) -> (r: Vec<u8>)
    ensures
        r@ == pad4(n as nat),
{
    if n < 10 {
        let mut v: Vec<u8> = Vec::new();
        v.push(48);
        v.push(48);
        v.push(48);
        let mut d = u64_to_dec(n);
        v.append(&mut d);
        assert(v@ =~= pad4(n as nat));
        v
    } else if n < 100 {
        let mut v: Vec<u8> = Vec::new();
        v.push(48);
        v.push(48);
        let mut d = u64_to_dec(n);
        v.append(&mut d);
        assert(v@ =~= pad4(n as nat));
        v
    } else if n < 1000 {
        let mut v: Vec<u8> = Vec::new();
        v.push(48);
        let mut d = u64_to_dec(n);
        v.append(&mut d);
        assert(v@ =~= pad4(n as nat));
        v
    } else {
        u64_to_dec(n)
    }
}

} // verus!
