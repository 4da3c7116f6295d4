//! Big-endian integers and bounded reads from byte buffers, the building
//! blocks of the binary formats in this crate.
use vstd::prelude::*;

verus! {

/// Big-endian bytes of a 16-bit number.
pub open spec fn u16_be_bytes(x: u16) -> Seq<u8> {
    seq![(x >> 8u16) as u8, x as u8]
}

/// Big-endian bytes of a 32-bit number.
pub open spec fn u32_be_bytes(x: u32) -> Seq<u8> {
    seq![(x >> 24u32) as u8, (x >> 16u32) as u8, (x >> 8u32) as u8, x as u8]
}

/// Big-endian bytes of a 64-bit number.
pub open spec fn u64_be_bytes(x: u64) -> Seq<u8> {
    seq![
        (x >> 56u64) as u8,
        (x >> 48u64) as u8,
        (x >> 40u64) as u8,
        (x >> 32u64) as u8,
        (x >> 24u64) as u8,
        (x >> 16u64) as u8,
        (x >> 8u64) as u8,
        x as u8,
    ]
}

/// The 16-bit number stored big-endian at `at`.
pub open spec fn be_u16_at(s: Seq<u8>, at: int) -> u16 {
    ((s[at] as u16) << 8u16) | (s[at + 1] as u16)
}

/// The 32-bit number stored big-endian at `at`.
pub open spec fn be_u32_at(s: Seq<u8>, at: int) -> u32 {
    ((s[at] as u32) << 24u32) | ((s[at + 1] as u32) << 16u32) | ((s[at + 2] as u32) << 8u32) | (
    s[at + 3] as u32)
}

/// The 64-bit number stored big-endian at `at`.
pub open spec fn be_u64_at(s: Seq<u8>, at: int) -> u64 {
    ((s[at] as u64) << 56u64) | ((s[at + 1] as u64) << 48u64) | ((s[at + 2] as u64) << 40u64) | ((
    s[at + 3] as u64) << 32u64) | ((s[at + 4] as u64) << 24u64) | ((s[at + 5] as u64) << 16u64) | ((
    s[at + 6] as u64) << 8u64) | (s[at + 7] as u64)
}

pub proof fn lemma_u16_roundtrip(x: u16)
    ensures
        be_u16_at(u16_be_bytes(x), 0) == x,
{
    let b0 = (x >> 8u16) as u8;
    let b1 = x as u8;
    assert(((b0 as u16) << 8u16) | (b1 as u16) == x) by (bit_vector)
        requires
            b0 == (x >> 8u16) as u8,
            b1 == x as u8,
    ;
}

pub proof fn lemma_u32_roundtrip(x: u32)
    ensures
        be_u32_at(u32_be_bytes(x), 0) == x,
{
    let b0 = (x >> 24u32) as u8;
    let b1 = (x >> 16u32) as u8;
    let b2 = (x >> 8u32) as u8;
    let b3 = x as u8;
    assert(((b0 as u32) << 24u32) | ((b1 as u32) << 16u32) | ((b2 as u32) << 8u32) | (b3 as u32)
        == x) by (bit_vector)
        requires
            b0 == (x >> 24u32) as u8,
            b1 == (x >> 16u32) as u8,
            b2 == (x >> 8u32) as u8,
            b3 == x as u8,
    ;
}

pub proof fn lemma_u64_roundtrip(x: u64)
    ensures
        be_u64_at(u64_be_bytes(x), 0) == x,
{
    let b0 = (x >> 56u64) as u8;
    let b1 = (x >> 48u64) as u8;
    let b2 = (x >> 40u64) as u8;
    let b3 = (x >> 32u64) as u8;
    let b4 = (x >> 24u64) as u8;
    let b5 = (x >> 16u64) as u8;
    let b6 = (x >> 8u64) as u8;
    let b7 = x as u8;
    assert(((b0 as u64) << 56u64) | ((b1 as u64) << 48u64) | ((b2 as u64) << 40u64) | ((b3 as u64)
        << 32u64) | ((b4 as u64) << 24u64) | ((b5 as u64) << 16u64) | ((b6 as u64) << 8u64) | (
    b7 as u64) == x) by (bit_vector)
        requires
            b0 == (x >> 56u64) as u8,
            b1 == (x >> 48u64) as u8,
            b2 == (x >> 40u64) as u8,
            b3 == (x >> 32u64) as u8,
            b4 == (x >> 24u64) as u8,
            b5 == (x >> 16u64) as u8,
            b6 == (x >> 8u64) as u8,
            b7 == x as u8,
    ;
}

/// Reads a big-endian 16-bit number at `at`.
pub fn read_u16_be(data: &[u8], at: usize) -> (r: u16)
    requires
        at + 2 <= data@.len(),
    ensures
        r == be_u16_at(data@, at as int),
{
    ((data[at] as u16) << 8u16) | (data[at + 1] as u16)
}

/// Reads a big-endian 32-bit number at `at`.
pub fn read_u32_be(data: &[u8], at: usize) -> (r: u32)
    requires
        at + 4 <= data@.len(),
    ensures
        r == be_u32_at(data@, at as int),
{
    ((data[at] as u32) << 24u32) | ((data[at + 1] as u32) << 16u32) | ((data[at + 2] as u32)
        << 8u32) | (data[at + 3] as u32)
}

/// Reads a big-endian 64-bit number at `at`.
pub fn read_u64_be(data: &[u8], at: usize) -> (r: u64)
    requires
        at + 8 <= data@.len(),
    ensures
        r == be_u64_at(data@, at as int),
{
    ((data[at] as u64) << 56u64) | ((data[at + 1] as u64) << 48u64) | ((data[at + 2] as u64)
        << 40u64) | ((data[at + 3] as u64) << 32u64) | ((data[at + 4] as u64) << 24u64) | ((data[at
        + 5] as u64) << 16u64) | ((data[at + 6] as u64) << 8u64) | (data[at + 7] as u64)
}

/// Appends the big-endian bytes of a 16-bit number.
pub fn push_u16_be(out: &mut Vec<u8>, x: u16)
    ensures
        final(out)@ == old(out)@ + u16_be_bytes(x),
{
    out.push((x >> 8u16) as u8);
    out.push(x as u8);
    assert(out@ =~= old(out)@ + u16_be_bytes(x));
}

/// Appends the big-endian bytes of a 32-bit number.
pub fn push_u32_be(out: &mut Vec<u8>, x: u32)
    ensures
        final(out)@ == old(out)@ + u32_be_bytes(x),
{
    out.push((x >> 24u32) as u8);
    out.push((x >> 16u32) as u8);
    out.push((x >> 8u32) as u8);
    out.push(x as u8);
    assert(out@ =~= old(out)@ + u32_be_bytes(x));
}

/// Appends the big-endian bytes of a 64-bit number.
pub fn push_u64_be(out: &mut Vec<u8>, x: u64)
    ensures
        final(out)@ == old(out)@ + u64_be_bytes(x),
{
    out.push((x >> 56u64) as u8);
    out.push((x >> 48u64) as u8);
    out.push((x >> 40u64) as u8);
    out.push((x >> 32u64) as u8);
    out.push((x >> 24u64) as u8);
    out.push((x >> 16u64) as u8);
    out.push((x >> 8u64) as u8);
    out.push(x as u8);
    assert(out@ =~= old(out)@ + u64_be_bytes(x));
}

/// Appends a byte slice.
pub fn push_bytes(out: &mut Vec<u8>, data: &[u8])
    ensures
        final(out)@ == old(out)@ + data@,
{
    let mut i: usize = 0;
    while i < data.len()
        invariant
            i <= data@.len(),
            out@ == old(out)@ + data@.take(i as int),
        decreases data@.len() - i,
    {
        out.push(data[i]);
        i = i + 1;
        assert(out@ =~= old(out)@ + data@.take(i as int));
    }
    assert(data@.take(i as int) =~= data@);
}

/// Copies `data[start..start + len]`.
pub fn copy_range(data: &[u8], start: usize, len: usize) -> (r: Vec<u8>)
    requires
        start + len <= data@.len(),
    ensures
        r@ == data@.subrange(start as int, start + len),
{
    let mut out: Vec<u8> = Vec::new();
    let n = data.len();
    let mut i: usize = 0;
    while i < len
        invariant
            n == data@.len(),
            start + len <= data@.len(),
            i <= len,
            out@ == data@.subrange(start as int, start + i),
        decreases len - i,
    {
        out.push(data[start + i]);
        i = i + 1;
        assert(out@ =~= data@.subrange(start as int, start + i));
    }
    out
}


/// Lexicographic order of byte strings (a proper prefix comes first), the
/// order of `Vec<u8>` and `[u8]`.
pub open spec fn lex_lt(a: Seq<u8>, b: Seq<u8>) -> bool
    decreases a.len(),
{
    if a.len() == 0 {
        b.len() > 0
    } else if b.len() == 0 {
        false
    } else if a[0] != b[0] {
        a[0] < b[0]
    } else {
        lex_lt(a.drop_first(), b.drop_first())
    }
}

/// The lexicographic order is irreflexive, transitive and total.
pub proof fn lemma_lex_order(a: Seq<u8>, b: Seq<u8>, c: Seq<u8>)
    ensures
        !lex_lt(a, a),
        lex_lt(a, b) && lex_lt(b, c) ==> lex_lt(a, c),
        a != b ==> lex_lt(a, b) || lex_lt(b, a),
        lex_lt(a, b) ==> !lex_lt(b, a),
    decreases a.len(),
{
    if a.len() > 0 && b.len() > 0 && c.len() > 0 {
        lemma_lex_order(a.drop_first(), b.drop_first(), c.drop_first());
    } else if a.len() > 0 && b.len() > 0 {
        lemma_lex_order(a.drop_first(), b.drop_first(), b.drop_first());
    } else if a.len() > 0 {
        lemma_lex_order(a.drop_first(), a.drop_first(), a.drop_first());
    }
    if a != b && a.len() > 0 && b.len() > 0 && a[0] == b[0] {
        assert(a.drop_first() != b.drop_first()) by {
            if a.drop_first() == b.drop_first() {
                assert(a =~= seq![a[0]] + a.drop_first());
                assert(b =~= seq![b[0]] + b.drop_first());
            }
        }
    }
    if a.len() == 0 && b.len() == 0 {
        assert(a =~= b);
    }
}

/// Whether `a` comes before `b` in lexicographic order.
pub fn bytes_lt(a: &[u8], b: &[u8]) -> (r: bool)
    ensures
        r == lex_lt(a@, b@),
{
    let mut i: usize = 0;
    assert(a@.subrange(0, a@.len() as int) =~= a@);
    assert(b@.subrange(0, b@.len() as int) =~= b@);
    while i < a.len() && i < b.len() && a[i] == b[i]
        invariant
            i <= a@.len(),
            i <= b@.len(),
            lex_lt(a@, b@) == lex_lt(a@.subrange(i as int, a@.len() as int), b@.subrange(
                i as int,
                b@.len() as int,
            )),
        decreases a@.len() - i,
    {
        let ghost sa = a@.subrange(i as int, a@.len() as int);
        let ghost sb = b@.subrange(i as int, b@.len() as int);
        assert(sa.drop_first() =~= a@.subrange(i + 1, a@.len() as int));
        assert(sb.drop_first() =~= b@.subrange(i + 1, b@.len() as int));
        i = i + 1;
    }
    let ghost sa = a@.subrange(i as int, a@.len() as int);
    let ghost sb = b@.subrange(i as int, b@.len() as int);
    if i == a.len() {
        i < b.len()
    } else if i == b.len() {
        false
    } else {
        assert(sa[0] == a@[i as int] && sb[0] == b@[i as int]);
        a[i] < b[i]
    }
}

} // verus!
