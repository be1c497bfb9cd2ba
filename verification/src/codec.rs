//! Fixed-width encodings of bit patterns as bytes, in either byte order.

use vstd::prelude::*;

verus! {

/// The order in which the bytes of a scalar are laid out.
#[derive(Clone, Copy, Debug, PartialEq, Eq, Structural)]
pub enum ByteOrder {
    /// Least significant byte first.
    Little,
    /// Most significant byte first.
    Big,
}

/// 256 to the power `n`: the number of bit patterns that fit in `n` bytes.
pub open spec fn pow256(n: nat) -> nat
    decreases n,
{
    if n == 0 {
        1
    } else {
        256 * pow256((n - 1) as nat)
    }
}

/// The `n` low bytes of `v`, least significant first.
pub open spec fn le_bytes(v: nat, n: nat) -> Seq<u8>
    decreases n,
{
    if n == 0 {
        Seq::empty()
    } else {
        seq![(v % 256) as u8] + le_bytes(v / 256, (n - 1) as nat)
    }
}

/// The number whose bytes, least significant first, are `s`.
pub open spec fn le_value(s: Seq<u8>) -> nat
    decreases s.len(),
{
    if s.len() == 0 {
        0
    } else {
        s[0] as nat + 256 * le_value(s.drop_first())
    }
}

/// `s` back to front.
pub open spec fn rev(s: Seq<u8>) -> Seq<u8> {
    Seq::new(s.len(), |i: int| s[s.len() - 1 - i])
}

/// The `n` low bytes of `v` in the given order.
pub open spec fn encode_spec(v: nat, n: nat, order: ByteOrder) -> Seq<u8> {
    match order {
        ByteOrder::Little => le_bytes(v, n),
        ByteOrder::Big => rev(le_bytes(v, n)),
    }
}

/// The number that `s` encodes in the given order.
pub open spec fn decode_spec(s: Seq<u8>, order: ByteOrder) -> nat {
    match order {
        ByteOrder::Little => le_value(s),
        ByteOrder::Big => le_value(rev(s)),
    }
}

/// The values of `pow256` for the widths that occur.
pub proof fn lemma_pow256_values()
    ensures
        pow256(0) == 1,
        pow256(1) == 0x100,
        pow256(2) == 0x1_0000,
        pow256(3) == 0x100_0000,
        pow256(4) == 0x1_0000_0000,
        pow256(5) == 0x100_0000_0000,
        pow256(6) == 0x1_0000_0000_0000,
        pow256(7) == 0x100_0000_0000_0000,
        pow256(8) == 0x1_0000_0000_0000_0000,
{
    reveal_with_fuel(pow256, 10);
}

/// An encoding has as many bytes as were asked for.
pub proof fn lemma_le_bytes_len(v: nat, n: nat)
    ensures
        le_bytes(v, n).len() == n,
    decreases n,
{
    if n > 0 {
        lemma_le_bytes_len(v / 256, (n - 1) as nat);
    }
}

/// A byte sequence encodes a number below `256^len`.
pub proof fn lemma_le_value_bound(s: Seq<u8>)
    ensures
        le_value(s) < pow256(s.len()),
    decreases s.len(),
{
    if s.len() > 0 {
        lemma_le_value_bound(s.drop_first());
    }
}

/// Decoding what was encoded gives the number back, if it fits the width.
pub proof fn lemma_le_round_trip(v: nat, n: nat)
    requires
        v < pow256(n),
    ensures
        le_value(le_bytes(v, n)) == v,
    decreases n,
{
    if n > 0 {
        let rest = le_bytes(v / 256, (n - 1) as nat);
        lemma_le_round_trip(v / 256, (n - 1) as nat);
        assert(le_bytes(v, n).drop_first() =~= rest);
    }
}

/// Encoding what was decoded gives the bytes back.
pub proof fn lemma_le_bytes_of_value(s: Seq<u8>)
    ensures
        le_bytes(le_value(s), s.len()) == s,
    decreases s.len(),
{
    if s.len() > 0 {
        lemma_le_bytes_of_value(s.drop_first());
        let v = le_value(s);
        assert(v % 256 == s[0] as nat);
        assert(v / 256 == le_value(s.drop_first()));
        assert(le_bytes(v, s.len()) =~= s);
    } else {
        assert(le_bytes(le_value(s), s.len()) =~= s);
    }
}

/// In either order an encoding has the width asked for.
pub proof fn lemma_encode_len(v: nat, n: nat, order: ByteOrder)
    ensures
        encode_spec(v, n, order).len() == n,
{
    lemma_le_bytes_len(v, n);
}

/// In either order: an encoding has the width asked for, and decodes to the
/// number it was made from when that number fits the width.
pub proof fn lemma_encode_decode(v: nat, n: nat, order: ByteOrder)
    requires
        v < pow256(n),
    ensures
        encode_spec(v, n, order).len() == n,
        decode_spec(encode_spec(v, n, order), order) == v,
{
    lemma_le_bytes_len(v, n);
    lemma_le_round_trip(v, n);
    assert(rev(rev(le_bytes(v, n))) =~= le_bytes(v, n));
}

/// In either order: what is decoded is below `256^len`, and encodes to the
/// bytes it was read from.
pub proof fn lemma_decode_encode(s: Seq<u8>, order: ByteOrder)
    ensures
        decode_spec(s, order) < pow256(s.len()),
        encode_spec(decode_spec(s, order), s.len(), order) == s,
{
    lemma_le_value_bound(s);
    lemma_le_value_bound(rev(s));
    lemma_le_bytes_of_value(s);
    lemma_le_bytes_of_value(rev(s));
    assert(rev(rev(s)) =~= s);
}

/// `u16::to_ne_bytes` of std: the two bytes of `x` in the byte order of the
/// machine, which is one of the two orders. Which one is not stated.
#[verifier::external_body]
fn ne_bytes_u16(x: u16) -> (b: [u8; 2])
    ensures
        b@ == le_bytes(x as nat, 2) || b@ == rev(le_bytes(x as nat, 2)),
{
    x.to_ne_bytes()
}

impl ByteOrder {
    /// The byte order that shows in the machine's encoding of the number 1.
    pub open spec fn spec_from_probe(probe: Seq<u8>) -> ByteOrder {
        if probe[0] == 1u8 {
            ByteOrder::Little
        } else {
            ByteOrder::Big
        }
    }

    /// Reads the byte order off the two bytes that encode the number 1.
    pub fn from_probe(probe: &[u8; 2]) -> (order: ByteOrder)
        ensures
            order == Self::spec_from_probe(probe@),
    {
        if probe[0] == 1 {
            ByteOrder::Little
        } else {
            ByteOrder::Big
        }
    }

    /// The byte order of the machine this runs on. It differs between
    /// machines, so nothing is promised of it.
    pub fn native() -> (order: ByteOrder) {
        let probe = ne_bytes_u16(1);
        Self::from_probe(&probe)
    }
}

/// The bytes of `s` back to front.
fn reversed(s: &Vec<u8>) -> (out: Vec<u8>)
    ensures
        out@ == rev(s@),
{
    let n: usize = s.len();
    let mut out: Vec<u8> = Vec::new();
    let mut i: usize = 0;
    while i < n
        invariant
            n == s@.len(),
            i <= n,
            out@.len() == i,
            forall|j: int| 0 <= j < i ==> out@[j] == s@[n - 1 - j],
        decreases n - i,
    {
        out.push(s[n - 1 - i]);
        i += 1;
    }
    assert(out@ =~= rev(s@));
    out
}

/// Encodes the `width` low bytes of `bits` in the given order.
pub fn encode(bits: u64, width: usize, order: ByteOrder) -> (out: Vec<u8>)
    ensures
        out@ == encode_spec(bits as nat, width as nat, order),
        out@.len() == width,
{
    let mut low: Vec<u8> = Vec::new();
    let mut rest: u64 = bits;
    let mut i: usize = 0;
    while i < width
        invariant
            i <= width,
            low@.len() == i,
            low@ + le_bytes(rest as nat, (width - i) as nat) == le_bytes(bits as nat, width as nat),
        decreases width - i,
    {
        let b: u8 = (rest % 256) as u8;
        proof {
            assert(low@.push(b) + le_bytes((rest / 256) as nat, (width - i - 1) as nat)
                =~= low@ + le_bytes(rest as nat, (width - i) as nat));
        }
        low.push(b);
        rest = rest / 256;
        i += 1;
    }
    proof {
        assert(low@ + le_bytes(rest as nat, 0) =~= low@);
        lemma_le_bytes_len(bits as nat, width as nat);
    }
    match order {
        ByteOrder::Little => low,
        ByteOrder::Big => reversed(&low),
    }
}

/// Every width up to eight bytes holds numbers below `2^64` only.
proof fn lemma_pow256_fits(n: nat)
    requires
        n <= 8,
    ensures
        pow256(n) <= 0x1_0000_0000_0000_0000,
{
    lemma_pow256_values();
    assert(n == 0 || n == 1 || n == 2 || n == 3 || n == 4 || n == 5 || n == 6 || n == 7 || n == 8);
}

/// Decodes bytes given least significant first.
fn decode_little(bytes: &[u8]) -> (v: u64)
    requires
        bytes@.len() <= 8,
    ensures
        v as nat == le_value(bytes@),
{
    let n: usize = bytes.len();
    let mut acc: u64 = 0;
    let mut i: usize = n;
    while i > 0
        invariant
            n == bytes@.len(),
            n <= 8,
            i <= n,
            acc as nat == le_value(bytes@.subrange(i as int, n as int)),
        decreases i,
    {
        proof {
            let tail = bytes@.subrange(i - 1, n as int);
            assert(tail.drop_first() =~= bytes@.subrange(i as int, n as int));
            lemma_le_value_bound(tail);
            lemma_pow256_fits(tail.len());
        }
        i -= 1;
        acc = acc * 256 + bytes[i] as u64;
    }
    assert(bytes@.subrange(0, n as int) =~= bytes@);
    acc
}

/// Decodes bytes given most significant first.
fn decode_big(bytes: &[u8]) -> (v: u64)
    requires
        bytes@.len() <= 8,
    ensures
        v as nat == le_value(rev(bytes@)),
{
    let n: usize = bytes.len();
    let mut acc: u64 = 0;
    let mut i: usize = 0;
    while i < n
        invariant
            n == bytes@.len(),
            n <= 8,
            i <= n,
            acc as nat == le_value(rev(bytes@.subrange(0, i as int))),
        decreases n - i,
    {
        proof {
            let head = rev(bytes@.subrange(0, i + 1));
            assert(head.drop_first() =~= rev(bytes@.subrange(0, i as int)));
            lemma_le_value_bound(head);
            lemma_pow256_fits(head.len());
        }
        acc = acc * 256 + bytes[i] as u64;
        i += 1;
    }
    assert(bytes@.subrange(0, n as int) =~= bytes@);
    acc
}

/// Decodes at most eight bytes in the given order.
pub fn decode(bytes: &[u8], order: ByteOrder) -> (v: u64)
    requires
        bytes@.len() <= 8,
    ensures
        v as nat == decode_spec(bytes@, order),
{
    match order {
        ByteOrder::Little => decode_little(bytes),
        ByteOrder::Big => decode_big(bytes),
    }
}

} // verus!
