//! Big-endian byte strings and the arithmetic facts the codecs and the
//! curve negation need: the value of a byte string, its canonical
//! encoding, and small executable helpers over `Vec<u8>`.
use vstd::prelude::*;

verus! {

use vstd::arithmetic::div_mod::lemma_fundamental_div_mod;
use vstd::arithmetic::div_mod::lemma_fundamental_div_mod_converse;

/// 256 raised to `n`: the number of values of an `n`-byte string.
pub open spec fn pow256(n: nat) -> nat
    decreases n,
{
    if n == 0 {
        1
    } else {
        256 * pow256((n - 1) as nat)
    }
}

/// Big-endian value of a byte string: the first byte is the most
/// significant.
pub open spec fn be_val(s: Seq<u8>) -> nat
    decreases s.len(),
{
    if s.len() == 0 {
        0
    } else {
        be_val(s.drop_last()) * 256 + s.last() as nat
    }
}

/// Canonical `n`-byte big-endian encoding of `v % pow256(n)`.
pub open spec fn be_bytes(v: nat, n: nat) -> Seq<u8>
    decreases n,
{
    if n == 0 {
        Seq::empty()
    } else {
        be_bytes(v / 256, (n - 1) as nat).push((v % 256) as u8)
    }
}

/// Every byte is zero.
pub open spec fn is_zero_seq(s: Seq<u8>) -> bool {
    forall|i: int| 0 <= i < s.len() ==> s[i] == 0
}

pub proof fn lemma_be_val_split(a: Seq<u8>, b: Seq<u8>)
    ensures
        be_val(a + b) == be_val(a) * pow256(b.len()) + be_val(b),
    decreases b.len(),
{
    if b.len() == 0 {
        assert(a + b =~= a);
        assert(pow256(0) == 1);
        assert(be_val(b) == 0);
        assert(be_val(a) * pow256(b.len()) == be_val(a)) by (nonlinear_arith)
            requires
                pow256(b.len()) == 1,
        ;
    } else {
        let b0 = b.drop_last();
        lemma_be_val_split(a, b0);
        assert((a + b).drop_last() =~= a + b0);
        assert((a + b).last() == b.last());
        assert(be_val(a + b) == be_val(a + b0) * 256 + b.last());
        assert(be_val(b) == be_val(b0) * 256 + b.last());
        assert(be_val(a + b) == (be_val(a) * pow256(b0.len()) + be_val(b0)) * 256 + b.last());
        assert((be_val(a) * pow256(b0.len()) + be_val(b0)) * 256 == be_val(a) * (256 * pow256(
            b0.len(),
        )) + be_val(b0) * 256) by (nonlinear_arith);
        assert(pow256(b.len()) == 256 * pow256(b0.len()));
        assert(be_val(a + b) == be_val(a) * pow256(b.len()) + be_val(b));
    }
}

pub proof fn lemma_be_val_bound(s: Seq<u8>)
    ensures
        be_val(s) < pow256(s.len()),
    decreases s.len(),
{
    if s.len() > 0 {
        let s0 = s.drop_last();
        lemma_be_val_bound(s0);
        assert(be_val(s0) * 256 <= (pow256(s0.len()) - 1) * 256) by (nonlinear_arith)
            requires
                be_val(s0) <= pow256(s0.len()) - 1,
        ;
    }
}

pub proof fn lemma_be_val_injective(a: Seq<u8>, b: Seq<u8>)
    requires
        a.len() == b.len(),
        be_val(a) == be_val(b),
    ensures
        a == b,
    decreases a.len(),
{
    if a.len() > 0 {
        let a0 = a.drop_last();
        let b0 = b.drop_last();
        lemma_be_val_bound(a0);
        lemma_be_val_bound(b0);
        // the last byte and the prefix value are the digits of one division
        lemma_fundamental_div_mod_converse(be_val(a) as int, 256, be_val(a0) as int, a.last() as int);
        lemma_fundamental_div_mod_converse(be_val(b) as int, 256, be_val(b0) as int, b.last() as int);
        lemma_be_val_injective(a0, b0);
        assert(a =~= a0.push(a.last()));
        assert(b =~= b0.push(b.last()));
    } else {
        assert(a =~= b);
    }
}

pub proof fn lemma_be_bytes_len(v: nat, n: nat)
    ensures
        be_bytes(v, n).len() == n,
    decreases n,
{
    if n > 0 {
        lemma_be_bytes_len(v / 256, (n - 1) as nat);
    }
}

pub proof fn lemma_be_val_of_be_bytes(v: nat, n: nat)
    requires
        v < pow256(n),
    ensures
        be_val(be_bytes(v, n)) == v,
    decreases n,
{
    if n == 0 {
    } else {
        let q = v / 256;
        lemma_fundamental_div_mod(v as int, 256);
        assert(256 * q < 256 * pow256((n - 1) as nat));
        lemma_be_val_of_be_bytes(q, (n - 1) as nat);
        lemma_be_bytes_len(q, (n - 1) as nat);
        assert(be_bytes(v, n).drop_last() =~= be_bytes(q, (n - 1) as nat));
    }
}

pub proof fn lemma_zero_seq_val(s: Seq<u8>)
    ensures
        is_zero_seq(s) ==> be_val(s) == 0,
        be_val(s) == 0 ==> is_zero_seq(s),
    decreases s.len(),
{
    if s.len() > 0 {
        lemma_zero_seq_val(s.drop_last());
        if is_zero_seq(s) {
            assert(is_zero_seq(s.drop_last()));
        }
        if be_val(s) == 0 {
            assert(be_val(s.drop_last()) * 256 >= 0);
            assert forall|i: int| 0 <= i < s.len() implies s[i] == 0 by {
                if i < s.len() - 1 {
                    assert(s.drop_last()[i] == 0);
                }
            }
        }
    }
}

/// The value of a one-byte string is its byte.
pub proof fn lemma_be_val_single(s: Seq<u8>)
    requires
        s.len() == 1,
    ensures
        be_val(s) == s[0],
{
    assert(s.drop_last() =~= Seq::<u8>::empty());
    assert(be_val(Seq::<u8>::empty()) == 0);
    assert(s.last() == s[0]);
}

/// The value of a byte string splits at any cut as prefix value times a
/// power of 256 plus suffix value.
pub proof fn lemma_be_val_cut(s: Seq<u8>, k: int)
    requires
        0 <= k <= s.len(),
    ensures
        be_val(s) == be_val(s.subrange(0, k)) * pow256((s.len() - k) as nat) + be_val(
            s.subrange(k, s.len() as int),
        ),
{
    lemma_be_val_split(s.subrange(0, k), s.subrange(k, s.len() as int));
    assert(s.subrange(0, k) + s.subrange(k, s.len() as int) =~= s);
}

/// `r` is the copy of `data[start .. start + n]`.
pub fn copy_range(data: &Vec<u8>, start: usize, n: usize) -> (r: Vec<u8>)
    requires
        start + n <= data@.len(),
    ensures
        r@ == data@.subrange(start as int, start + n),
{
    let dl = data.len();
    let mut r: Vec<u8> = Vec::new();
    let mut i: usize = 0;
    while i < n
        invariant
            i <= n,
            start + n <= data@.len(),
            data@.len() == dl,
            r@ == data@.subrange(start as int, start + i),
        decreases n - i,
    {
        r.push(data[start + i]);
        assert(data@.subrange(start as int, start + i + 1) =~= data@.subrange(
            start as int,
            start + i,
        ).push(data@[start + i]));
        i += 1;
    }
    r
}

/// A copy of the whole byte string.
pub fn clone_bytes(v: &Vec<u8>) -> (r: Vec<u8>)
    ensures
        r@ == v@,
{
    let r = copy_range(v, 0, v.len());
    proof {
        assert(v@.subrange(0, v@.len() as int) =~= v@);
    }
    r
}

/// Appends a copy of `src` to `dst`.
pub fn append_bytes(dst: &mut Vec<u8>, src: &Vec<u8>)
    ensures
        final(dst)@ == old(dst)@ + src@,
{
    let mut i: usize = 0;
    while i < src.len()
        invariant
            i <= src@.len(),
            dst@ == old(dst)@ + src@.subrange(0, i as int),
        decreases src@.len() - i,
    {
        dst.push(src[i]);
        assert(old(dst)@ + src@.subrange(0, i + 1) =~= (old(dst)@ + src@.subrange(0, i as int)).push(
            src@[i as int],
        ));
        i += 1;
    }
    assert(src@.subrange(0, src@.len() as int) =~= src@);
}

/// A byte string of `n` zero bytes.
pub fn zero_vec(n: usize) -> (r: Vec<u8>)
    ensures
        r@ == Seq::new(n as nat, |i: int| 0u8),
{
    let mut r: Vec<u8> = Vec::new();
    let mut i: usize = 0;
    while i < n
        invariant
            i <= n,
            r@ == Seq::new(i as nat, |k: int| 0u8),
        decreases n - i,
    {
        r.push(0u8);
        assert(Seq::new((i + 1) as nat, |k: int| 0u8) =~= Seq::new(i as nat, |k: int| 0u8).push(
            0u8,
        ));
        i += 1;
    }
    r
}

/// Byte-string equality.
pub fn bytes_eq(a: &Vec<u8>, b: &Vec<u8>) -> (r: bool)
    ensures
        r <==> a@ == b@,
{
    if a.len() != b.len() {
        return false;
    }
    let mut i: usize = 0;
    while i < a.len()
        invariant
            a@.len() == b@.len(),
            i <= a@.len(),
            forall|j: int| 0 <= j < i ==> a@[j] == b@[j],
        decreases a@.len() - i,
    {
        if a[i] != b[i] {
            return false;
        }
        i += 1;
    }
    proof {
        assert(a@ =~= b@);
    }
    true
}

/// True when every byte of `a` is zero.
pub fn all_zero(a: &Vec<u8>) -> (r: bool)
    ensures
        r <==> is_zero_seq(a@),
{
    let mut i: usize = 0;
    while i < a.len()
        invariant
            i <= a@.len(),
            forall|j: int| 0 <= j < i ==> a@[j] == 0,
        decreases a@.len() - i,
    {
        if a[i] != 0 {
            return false;
        }
        i += 1;
    }
    true
}

/// The big-endian value of a 32-byte string, if it fits in a `u64`.
pub fn be_val_u64(s: &Vec<u8>) -> (r: Option<u64>)
    requires
        s@.len() == 32,
    ensures
        match r {
            Some(v) => v as nat == be_val(s@),
            None => be_val(s@) >= 0x1_0000_0000_0000_0000,
        },
{
    proof {
        lemma_be_val_cut(s@, 24);
        lemma_pow256_small();
    }
    let head = copy_range(s, 0, 24);
    if !all_zero(&head) {
        proof {
            lemma_zero_seq_val(s@.subrange(0, 24));
            assert(be_val(s@.subrange(0, 24)) * pow256(8) >= 1 * pow256(8)) by (nonlinear_arith)
                requires
                    be_val(s@.subrange(0, 24)) >= 1,
            ;
        }
        return None;
    }
    proof {
        lemma_zero_seq_val(s@.subrange(0, 24));
        lemma_be_val_bound(s@.subrange(24, 32));
    }
    let mut v: u64 = 0;
    let mut i: usize = 24;
    while i < 32
        invariant
            24 <= i <= 32,
            s@.len() == 32,
            v as nat == be_val(s@.subrange(24, i as int)),
            v < pow256((i - 24) as nat),
            pow256(8) == 0x1_0000_0000_0000_0000,
        decreases 32 - i,
    {
        proof {
            assert(s@.subrange(24, i + 1).drop_last() =~= s@.subrange(24, i as int));
            assert(pow256((i + 1 - 24) as nat) == 256 * pow256((i - 24) as nat));
            assert(pow256((i - 24) as nat) <= pow256(7)) by {
                lemma_pow256_le((i - 24) as nat, 7);
            }
            lemma_pow256_small();
        }
        v = v * 256 + (s[i] as u64);
        i += 1;
    }
    Some(v)
}

pub proof fn lemma_pow256_add(a: nat, b: nat)
    ensures
        pow256(a + b) == pow256(a) * pow256(b),
    decreases b,
{
    if b == 0 {
        assert(pow256(0) == 1);
        assert(pow256(a + b) == pow256(a));
        assert(pow256(a) * pow256(b) == pow256(a)) by (nonlinear_arith)
            requires
                pow256(b) == 1,
        ;
    } else {
        lemma_pow256_add(a, (b - 1) as nat);
        assert(pow256((a + b - 1) as nat) == pow256(a) * pow256((b - 1) as nat));
        assert(pow256(a + b) == 256 * pow256((a + b - 1) as nat));
        assert(pow256(b) == 256 * pow256((b - 1) as nat));
        assert(pow256(a + b) == 256 * (pow256(a) * pow256((b - 1) as nat)));
        assert(256 * (pow256(a) * pow256((b - 1) as nat)) == pow256(a) * (256 * pow256(
            (b - 1) as nat,
        ))) by (nonlinear_arith);
        assert(pow256(a + b) == pow256(a) * pow256(b));
    }
}

/// The small powers of 256 that the parsers lean on.
pub proof fn lemma_pow256_small()
    ensures
        pow256(3) == 0x100_0000,
        pow256(4) == 0x1_0000_0000,
        pow256(7) == 0x100_0000_0000_0000,
        pow256(8) == 0x1_0000_0000_0000_0000,
{
    assert(pow256(0) == 1);
    assert(pow256(1) == 0x100);
    assert(pow256(2) == 0x1_0000);
    assert(pow256(3) == 0x100_0000);
    assert(pow256(4) == 0x1_0000_0000);
    assert(pow256(5) == 0x100_0000_0000);
    assert(pow256(6) == 0x1_0000_0000_0000);
    assert(pow256(7) == 0x100_0000_0000_0000);
    assert(pow256(8) == 0x1_0000_0000_0000_0000);
}

/// The count of 32-byte strings, written out.
pub proof fn lemma_pow256_32()
    ensures
        pow256(32) == 0x1_0000_0000_0000_0000_0000_0000_0000_0000_0000_0000_0000_0000_0000_0000_0000_0000nat,
{
    lemma_pow256_small();
    lemma_pow256_add(8, 8);
    assert(pow256(16) == 0x1_0000_0000_0000_0000nat * 0x1_0000_0000_0000_0000nat);
    assert(pow256(16) == 0x1_0000_0000_0000_0000_0000_0000_0000_0000nat) by (nonlinear_arith)
        requires
            pow256(16) == 0x1_0000_0000_0000_0000nat * 0x1_0000_0000_0000_0000nat,
    ;
    lemma_pow256_add(16, 16);
    assert(pow256(32) == 0x1_0000_0000_0000_0000_0000_0000_0000_0000nat
        * 0x1_0000_0000_0000_0000_0000_0000_0000_0000nat);
    assert(pow256(32)
        == 0x1_0000_0000_0000_0000_0000_0000_0000_0000_0000_0000_0000_0000_0000_0000_0000_0000nat)
        by (nonlinear_arith)
        requires
            pow256(32) == 0x1_0000_0000_0000_0000_0000_0000_0000_0000nat
                * 0x1_0000_0000_0000_0000_0000_0000_0000_0000nat,
    ;
}

pub proof fn lemma_pow256_le(a: nat, b: nat)
    requires
        a <= b,
    ensures
        pow256(a) <= pow256(b),
    decreases b,
{
    if a < b {
        lemma_pow256_le(a, (b - 1) as nat);
        assert(pow256(b) == 256 * pow256((b - 1) as nat));
        assert(pow256((b - 1) as nat) <= 256 * pow256((b - 1) as nat)) by (nonlinear_arith)
            requires
                pow256((b - 1) as nat) >= 0,
        ;
    }
}

/// The big-endian value of a 4-byte string as a `u32`.
pub fn be_val_u32(s: &Vec<u8>) -> (r: u32)
    requires
        s@.len() == 4,
    ensures
        r as nat == be_val(s@),
{
    proof {
        lemma_be_val_bound(s@);
        lemma_pow256_small();
    }
    let mut v: u32 = 0;
    let mut i: usize = 0;
    while i < 4
        invariant
            i <= 4,
            s@.len() == 4,
            v as nat == be_val(s@.subrange(0, i as int)),
            v < pow256(i as nat),
        decreases 4 - i,
    {
        proof {
            assert(s@.subrange(0, i + 1).drop_last() =~= s@.subrange(0, i as int));
            assert(pow256((i + 1) as nat) == 256 * pow256(i as nat));
            assert(pow256(i as nat) <= pow256(3)) by {
                lemma_pow256_le(i as nat, 3);
            }
            lemma_pow256_small();
        }
        v = v * 256 + (s[i] as u32);
        i += 1;
    }
    proof {
        assert(s@.subrange(0, 4) =~= s@);
    }
    v
}

} // verus!
