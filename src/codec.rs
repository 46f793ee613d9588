//! Little-endian integers and fixed-size byte fields inside a byte buffer.
use vstd::prelude::*;

verus! {

/// The unsigned number that the bytes `s` spell, least significant first.
pub open spec fn le_value(s: Seq<u8>) -> nat
    decreases s.len(),
{
    if s.len() == 0 {
        0
    } else {
        s[0] as nat + 256 * le_value(s.drop_first())
    }
}

/// `256` to the power `n`.
pub open spec fn pow256(n: nat) -> nat
    decreases n,
{
    if n == 0 {
        1
    } else {
        256 * pow256((n - 1) as nat)
    }
}

/// The unsigned number held by `len` bytes of `buf` from `start` on.
pub open spec fn le_at(buf: Seq<u8>, start: int, len: int) -> nat {
    le_value(buf.subrange(start, start + len))
}

/// The number that `n` bytes spell is below `256^n`.
pub proof fn lemma_le_value_bound(s: Seq<u8>)
    ensures
        le_value(s) < pow256(s.len()),
    decreases s.len(),
{
    if s.len() > 0 {
        lemma_le_value_bound(s.drop_first());
        let r = le_value(s.drop_first());
        let p = pow256((s.len() - 1) as nat);
        assert(s[0] as nat + 256 * r < 256 * p) by (nonlinear_arith)
            requires
                r < p,
                s[0] < 256,
        ;
    }
}

/// Values of `pow256` that the record layouts use.
pub proof fn lemma_pow256_values()
    ensures
        pow256(1) == 0x100,
        pow256(4) == 0x1_0000_0000,
        pow256(8) == 0x1_0000_0000_0000_0000,
        pow256(16) == 0x1_0000_0000_0000_0000_0000_0000_0000_0000,
{
    reveal_with_fuel(pow256, 17);
}

/// Peeling the first byte off a field.
proof fn lemma_le_at_step(buf: Seq<u8>, start: int, len: int)
    requires
        0 <= start,
        0 < len,
        start + len <= buf.len(),
    ensures
        le_at(buf, start, len) == buf[start] as nat + 256 * le_at(buf, start + 1, len - 1),
{
    let s = buf.subrange(start, start + len);
    assert(s.drop_first() =~= buf.subrange(start + 1, start + len));
}

/// Reads the unsigned number held by `len` bytes of `buf` from `start` on.
pub fn read_le(buf: &[u8], start: usize, len: usize) -> (r: u128)
    requires
        start + len <= buf@.len(),
        len <= 16,
    ensures
        r == le_at(buf@, start as int, len as int),
{
    let buf_len = buf.len();
    let mut acc: u128 = 0;
    let mut i: usize = len;
    proof {
        assert(buf@.subrange(start + len, start + len) =~= Seq::<u8>::empty());
        lemma_pow256_values();
    }
    while i > 0
        invariant
            start + len <= buf@.len(),
            buf@.len() == buf_len,
            len <= 16,
            i <= len,
            acc == le_at(buf@, start + i, len - i),
            acc < pow256((len - i) as nat),
            pow256(16) == 0x1_0000_0000_0000_0000_0000_0000_0000_0000,
        decreases i,
    {
        let b = buf[start + i - 1];
        proof {
            lemma_le_at_step(buf@, start + i - 1, len - i + 1);
            lemma_pow256_monotone((len - i + 1) as nat, 16);
            assert(pow256((len - i + 1) as nat) == 256 * pow256((len - i) as nat));
            assert(b as int + 256 * acc < 256 * pow256((len - i) as nat)) by (nonlinear_arith)
                requires
                    acc < pow256((len - i) as nat),
                    b < 256,
            ;
        }
        acc = (b as u128) + 256 * acc;
        i = i - 1;
    }
    acc
}

/// `pow256` is positive.
pub proof fn lemma_pow256_positive(n: nat)
    ensures
        pow256(n) > 0,
    decreases n,
{
    if n > 0 {
        lemma_pow256_positive((n - 1) as nat);
    }
}

/// `pow256` grows with its exponent.
pub proof fn lemma_pow256_monotone(a: nat, b: nat)
    requires
        a <= b,
    ensures
        pow256(a) <= pow256(b),
    decreases b,
{
    if a < b {
        lemma_pow256_monotone(a, (b - 1) as nat);
    }
}

/// Bytes that hold the base-256 digits of `v`, least significant first,
/// spell `v`.
pub proof fn lemma_le_value_digits(s: Seq<u8>, v: nat)
    requires
        v < pow256(s.len()),
        forall|k: int| 0 <= k < s.len() ==> s[k] as nat == (v as nat / pow256(k as nat)) % 256,
    ensures
        le_value(s) == v,
    decreases s.len(),
{
    if s.len() == 0 {
        assert(v == 0);
    } else {
        let t = s.drop_first();
        let w = v / 256;
        assert forall|k: int| 0 <= k < t.len() implies t[k] as nat == (w / pow256(k as nat))
            % 256 by {
            assert(t[k] == s[k + 1]);
            lemma_pow256_positive(k as nat);
            assert(pow256((k + 1) as nat) == 256 * pow256(k as nat));
            vstd::arithmetic::div_mod::lemma_div_denominator(v as int, 256, pow256(k as nat) as int);
        }
        assert(w < pow256(t.len())) by {
            assert(pow256(s.len()) == 256 * pow256(t.len()));
            vstd::arithmetic::div_mod::lemma_multiply_divide_lt(v as int, 256, pow256(t.len()) as int);
        }
        lemma_le_value_digits(t, w);
        assert(s[0] as nat == v % 256) by {
            assert(pow256(0) == 1);
            assert(s[0] as nat == (v / pow256(0)) % 256);
            assert(v / 1 == v);
        }
        vstd::arithmetic::div_mod::lemma_fundamental_div_mod(v as int, 256);
    }
}

/// Fills `out` with the bytes of `buf` from `start` on.
pub fn read_bytes(buf: &[u8], start: usize, out: &mut [u8])
    requires
        start + old(out)@.len() <= buf@.len(),
    ensures
        final(out)@ == buf@.subrange(start as int, start + old(out)@.len()),
{
    let buf_len = buf.len();
    let n = out.len();
    let mut i: usize = 0;
    while i < n
        invariant
            start + n <= buf@.len(),
            buf@.len() == buf_len,
            out@.len() == n,
            n == old(out)@.len(),
            i <= n,
            forall|k: int| 0 <= k < i ==> out@[k] == buf@[start + k],
        decreases n - i,
    {
        out[i] = buf[start + i];
        i = i + 1;
    }
    assert(out@ =~= buf@.subrange(start as int, start + n));
}

/// Reads the 32-byte address at `start` of `buf`.
pub fn read_key(buf: &[u8], start: usize) -> (r: [u8; 32])
    requires
        start + 32 <= buf@.len(),
    ensures
        r@ == buf@.subrange(start as int, start + 32),
{
    let mut out: [u8; 32] = [0u8; 32];
    read_bytes(buf, start, &mut out);
    out
}

/// The `n` bytes that spell `v`, least significant first.
pub open spec fn le_bytes(v: nat, n: nat) -> Seq<u8> {
    Seq::new(n, |k: int| ((v / pow256(k as nat)) % 256) as u8)
}

/// Bytes written for a value below `256^n` read back as that value.
pub proof fn lemma_le_bytes_value(v: nat, n: nat)
    requires
        v < pow256(n),
    ensures
        le_value(le_bytes(v, n)) == v,
{
    let s = le_bytes(v, n);
    assert forall|k: int| 0 <= k < s.len() implies s[k] as nat == (v / pow256(k as nat)) % 256 by {
        lemma_pow256_positive(k as nat);
        vstd::arithmetic::div_mod::lemma_mod_pos_bound((v / pow256(k as nat)) as int, 256);
    }
    lemma_le_value_digits(s, v);
}

/// Appends the `len` bytes that spell `v`, least significant first.
pub fn push_le(out: &mut Vec<u8>, v: u128, len: usize)
    requires
        len <= 16,
    ensures
        final(out)@ == old(out)@ + le_bytes(v as nat, len as nat),
{
    let mut rem: u128 = v;
    let mut i: usize = 0;
    proof {
        assert(pow256(0) == 1);
        assert(old(out)@ + le_bytes(v as nat, 0) =~= old(out)@);
    }
    while i < len
        invariant
            i <= len,
            rem == v as nat / pow256(i as nat),
            out@ == old(out)@ + le_bytes(v as nat, i as nat),
        decreases len - i,
    {
        out.push((rem % 256) as u8);
        proof {
            assert(pow256((i + 1) as nat) == pow256(i as nat) * 256);
            lemma_pow256_positive(i as nat);
            vstd::arithmetic::div_mod::lemma_div_denominator(v as int, pow256(i as nat) as int, 256);
            assert(le_bytes(v as nat, (i + 1) as nat) =~= le_bytes(v as nat, i as nat).push(
                (rem % 256) as u8,
            ));
            assert(out@ =~= old(out)@ + le_bytes(v as nat, (i + 1) as nat));
        }
        rem = rem / 256;
        i = i + 1;
    }
}

/// Appends the bytes of `src`.
pub fn push_bytes(out: &mut Vec<u8>, src: &[u8])
    ensures
        final(out)@ == old(out)@ + src@,
{
    let mut i: usize = 0;
    proof {
        assert(old(out)@ + src@.subrange(0, 0) =~= old(out)@);
    }
    while i < src.len()
        invariant
            i <= src@.len(),
            out@ == old(out)@ + src@.subrange(0, i as int),
        decreases src@.len() - i,
    {
        out.push(src[i]);
        i = i + 1;
        proof {
            assert(out@ =~= old(out)@ + src@.subrange(0, i as int));
        }
    }
    assert(src@.subrange(0, src@.len() as int) =~= src@);
}

/// Copies `src` over the first bytes of `buf`; the other bytes stay as they are.
pub fn copy_prefix(buf: &mut [u8], src: &Vec<u8>)
    requires
        src@.len() <= old(buf)@.len(),
    ensures
        final(buf)@ == src@ + old(buf)@.subrange(src@.len() as int, old(buf)@.len() as int),
{
    let mut i: usize = 0;
    while i < src.len()
        invariant
            i <= src@.len(),
            src@.len() <= old(buf)@.len(),
            buf@.len() == old(buf)@.len(),
            forall|k: int| 0 <= k < i ==> buf@[k] == src@[k],
            forall|k: int| i <= k < buf@.len() ==> buf@[k] == old(buf)@[k],
        decreases src@.len() - i,
    {
        buf[i] = src[i];
        i = i + 1;
    }
    assert(buf@ =~= src@ + old(buf)@.subrange(src@.len() as int, old(buf)@.len() as int));
}

} // verus!
