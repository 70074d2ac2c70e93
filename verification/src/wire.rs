//! Byte-level vocabulary shared by every frame: little-endian fields and the
//! 16-bit additive checksum.

use vstd::prelude::*;

verus! {

/// The two bytes of `v` modulo 2^16, least significant first.
pub open spec fn le16(v: int) -> Seq<u8> {
    seq![(v % 256) as u8, (v / 256 % 256) as u8]
}

/// The value of a little-endian 16-bit field.
pub open spec fn le16_value(lo: u8, hi: u8) -> int {
    lo + 256 * hi
}

/// Sum of all bytes.
pub open spec fn byte_sum(s: Seq<u8>) -> nat
    decreases s.len(),
{
    if s.len() == 0 {
        0
    } else {
        byte_sum(s.drop_last()) + s.last() as nat
    }
}

/// The 16-bit additive checksum of `s`, as it is stored in a frame.
pub open spec fn checksum(s: Seq<u8>) -> Seq<u8> {
    le16(byte_sum(s) as int)
}

/// `n` zero bytes.
pub open spec fn zeros(n: nat) -> Seq<u8> {
    Seq::new(n, |i: int| 0u8)
}

/// `data` cut or zero-padded to exactly `n` bytes.
pub open spec fn padded(data: Seq<u8>, n: nat) -> Seq<u8> {
    Seq::new(n, |i: int| if i < data.len() { data[i] } else { 0u8 })
}

/// Number of `unit`-sized pieces needed to hold `n` items.
pub open spec fn pieces(n: int, unit: int) -> int {
    (n + unit - 1) / unit
}

/// A field holds its value modulo 2^16.
pub proof fn lemma_le16_value(v: int)
    requires
        0 <= v,
    ensures
        le16(v).len() == 2,
        le16_value(le16(v)[0], le16(v)[1]) == v % 65536,
{
    assert(v % 65536 == v % 256 + 256 * (v / 256 % 256));
}

/// A field depends on its value modulo 2^16 only.
pub proof fn lemma_le16_mod(v: int)
    requires
        0 <= v,
    ensures
        le16(v % 65536) == le16(v),
{
    assert(v % 65536 % 256 == v % 256);
    assert(v % 65536 / 256 % 256 == v / 256 % 256);
}

/// No byte sum exceeds 255 per byte.
pub proof fn lemma_byte_sum_bound(s: Seq<u8>)
    ensures
        byte_sum(s) <= 255 * s.len(),
    decreases s.len(),
{
    if s.len() > 0 {
        lemma_byte_sum_bound(s.drop_last());
    }
}

/// `k` names one of the pieces exactly when it starts before the end.
pub proof fn lemma_pieces(n: int, unit: int, k: int)
    requires
        0 <= n,
        0 < unit,
    ensures
        k < pieces(n, unit) <==> k * unit < n,
        0 <= pieces(n, unit) <= n,
{
    let p = pieces(n, unit);
    assert(p * unit <= n + unit - 1 < p * unit + unit) by (nonlinear_arith)
        requires
            p == (n + unit - 1) / unit,
            unit > 0,
    ;
    assert(k < p ==> k * unit <= p * unit - unit) by (nonlinear_arith)
        requires
            unit > 0,
    ;
    assert(k >= p ==> k * unit >= p * unit) by (nonlinear_arith)
        requires
            unit > 0,
    ;
    assert(0 <= p) by (nonlinear_arith)
        requires
            p * unit + unit > n + unit - 1,
            unit > 0,
            n >= 0,
    ;
    assert(p <= n) by (nonlinear_arith)
        requires
            p * unit <= n + unit - 1,
            unit > 0,
            n >= 0,
    ;
}

/// Least significant byte of a 16-bit value.
pub fn lo(v: u16) -> (b: u8)
    ensures
        b == le16(v as int)[0],
{
    (v % 256) as u8
}

/// Most significant byte of a 16-bit value.
pub fn hi(v: u16) -> (b: u8)
    ensures
        b == le16(v as int)[1],
{
    (v / 256) as u8
}

/// Additive checksum, modulo 2^16, of the bytes from `from` on.
pub fn sum16(data: &[u8], from: usize) -> (sum: u16)
    requires
        from <= data@.len(),
    ensures
        sum == byte_sum(data@.skip(from as int)) % 65536,
{
    let mut sum: u16 = 0;
    let mut i: usize = from;
    while i < data.len()
        invariant
            from <= i <= data@.len(),
            sum == byte_sum(data@.subrange(from as int, i as int)) % 65536,
        decreases data@.len() - i,
    {
        proof {
            assert(data@.subrange(from as int, i + 1).drop_last() =~= data@.subrange(
                from as int,
                i as int,
            ));
        }
        sum = sum.wrapping_add(data[i] as u16);
        i += 1;
    }
    assert(data@.subrange(from as int, i as int) =~= data@.skip(from as int));
    sum
}

/// Append the bytes of `src` to `dst`.
pub fn append(dst: &mut Vec<u8>, src: &[u8])
    ensures
        final(dst)@ == old(dst)@ + src@,
{
    dst.extend_from_slice(src);
    assert(dst@ =~= old(dst)@ + src@);
}

/// Number of `unit`-sized pieces needed to hold `n` items.
pub fn piece_count(n: usize, unit: usize) -> (count: usize)
    requires
        unit > 0,
    ensures
        count == pieces(n as int, unit as int),
{
    let whole: usize = n / unit;
    let rest: usize = n % unit;
    proof {
        let d = unit as int;
        let q = whole as int;
        let r = rest as int;
        assert(n as int == q * d + r && 0 <= r < d) by (nonlinear_arith)
            requires
                q == n as int / d,
                r == n as int % d,
                d > 0,
        ;
        if r == 0 {
            assert((n + d - 1) / d == q) by (nonlinear_arith)
                requires
                    n as int == q * d,
                    d > 0,
            ;
        } else {
            assert((n + d - 1) / d == q + 1) by (nonlinear_arith)
                requires
                    n as int == q * d + r,
                    0 < r < d,
            ;
        }
        assert(rest > 0 ==> whole < usize::MAX) by (nonlinear_arith)
            requires
                n as int == whole as int * unit as int + rest as int,
                unit > 0,
                n <= usize::MAX,
        ;
    }
    if rest == 0 {
        whole
    } else {
        whole + 1
    }
}

/// A 16-bit field is two bytes, the low one first; read together they are the value.
pub proof fn law_field_reads_back(v: int, lo: u8, hi: u8)
    requires
        0 <= v,
    ensures
        le16(v).len() == 2,
        le16(v)[0] + 256 * le16(v)[1] == v % 65536,
        le16_value(lo, hi) == lo + 256 * hi,
        le16(lo + 256 * hi) == seq![lo, hi],
{
    lemma_le16_value(v);
    assert(le16(lo + 256 * hi) =~= seq![lo, hi]);
}

/// The sum of bytes is additive: nothing adds nothing, one byte adds itself, and two
/// runs add up, wherever they are cut.
pub proof fn law_byte_sum_adds_up(a: Seq<u8>, b: Seq<u8>, x: u8)
    ensures
        byte_sum(Seq::<u8>::empty()) == 0,
        byte_sum(seq![x]) == x,
        byte_sum(a + b) == byte_sum(a) + byte_sum(b),
        checksum(a).len() == 2,
        checksum(a)[0] + 256 * checksum(a)[1] == byte_sum(a) % 65536,
    decreases b.len(),
{
    assert(seq![x].drop_last() =~= Seq::<u8>::empty());
    assert(byte_sum(seq![x]) == byte_sum(seq![x].drop_last()) + seq![x].last() as nat);
    lemma_le16_value(byte_sum(a) as int);
    if b.len() == 0 {
        assert(a + b =~= a);
    } else {
        assert((a + b).drop_last() =~= a + b.drop_last());
        law_byte_sum_adds_up(a, b.drop_last(), x);
    }
}

/// The pieces hold all items, and one piece less would not.
pub proof fn law_pieces_are_just_enough(n: int, unit: int)
    requires
        0 <= n,
        0 < unit,
    ensures
        n <= pieces(n, unit) * unit < n + unit,
{
    let p = pieces(n, unit);
    assert(n <= p * unit < n + unit) by (nonlinear_arith)
        requires
            p == (n + unit - 1) / unit,
            0 < unit,
    ;
}

/// Padding keeps the data as far as it fits and fills up with zero bytes.
pub proof fn law_padding_keeps_data(data: Seq<u8>, n: nat)
    ensures
        padded(data, n).len() == n,
        data.len() >= n ==> padded(data, n) == data.take(n as int),
        data.len() < n ==> padded(data, n).take(data.len() as int) == data && (forall|i: int|
            data.len() <= i < n ==> #[trigger] padded(data, n)[i] == 0),
        zeros(n).len() == n,
        forall|i: int| 0 <= i < n ==> #[trigger] zeros(n)[i] == 0,
{
    if data.len() >= n {
        assert(padded(data, n) =~= data.take(n as int));
    } else {
        assert(padded(data, n).take(data.len() as int) =~= data);
    }
}

} // verus!
