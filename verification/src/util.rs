//! Byte-string helpers shared by the codec, the key types and the range
//! logic: equality and lexicographic order on byte vectors, big-endian
//! encoding of 64-bit integers, and successor computations for half-open
//! range bounds.

use vstd::prelude::*;

verus! {

/// Lexicographic strict order on byte strings: a proper prefix sorts first.
pub open spec fn lex_less(a: Seq<u8>, b: Seq<u8>) -> bool
    decreases a.len(),
{
    if b.len() == 0 {
        false
    } else if a.len() == 0 {
        true
    } else if a[0] < b[0] {
        true
    } else if a[0] > b[0] {
        false
    } else {
        lex_less(a.skip(1), b.skip(1))
    }
}

/// Non-strict lexicographic order.
pub open spec fn lex_leq(a: Seq<u8>, b: Seq<u8>) -> bool {
    lex_less(a, b) || a == b
}

pub proof fn lemma_lex_less_irreflexive(a: Seq<u8>)
    ensures
        !lex_less(a, a),
    decreases a.len(),
{
    if a.len() > 0 {
        lemma_lex_less_irreflexive(a.skip(1));
    }
}

/// Lexicographic order is total: two byte strings compare one way, the
/// other way, or are equal.
pub proof fn lemma_lex_trichotomy(x: Seq<u8>, y: Seq<u8>)
    ensures
        lex_less(x, y) || lex_less(y, x) || x == y,
    decreases x.len(),
{
    if x.len() == 0 && y.len() == 0 {
        assert(x =~= y);
    } else if x.len() > 0 && y.len() > 0 && x[0] == y[0] {
        lemma_lex_trichotomy(x.skip(1), y.skip(1));
        if x.skip(1) == y.skip(1) {
            assert(x.skip(1).len() == y.skip(1).len());
            assert(x.len() == y.len());
            assert forall|i: int| 0 <= i < x.len() implies x[i] == y[i] by {
                if i >= 1 {
                    assert(x[i] == x.skip(1)[i - 1]);
                    assert(y[i] == y.skip(1)[i - 1]);
                }
            }
            assert(x =~= y);
        }
    }
}

/// Copies a byte vector; the copy has the same view.
pub fn clone_bytes(v: &Vec<u8>) -> (r: Vec<u8>)
    ensures
        r@ == v@,
{
    let mut r: Vec<u8> = Vec::new();
    let mut i: usize = 0;
    while i < v.len()
        invariant
            i <= v.len(),
            r@ == v@.take(i as int),
        decreases v.len() - i,
    {
        r.push(v[i]);
        i = i + 1;
        proof {
            assert(v@.take(i as int) =~= v@.take(i - 1).push(v@[i - 1]));
        }
    }
    proof {
        assert(v@.take(v@.len() as int) =~= v@);
    }
    r
}

/// Tests two byte vectors for equality of contents.
pub fn bytes_eq(a: &Vec<u8>, b: &Vec<u8>) -> (r: bool)
    ensures
        r == (a@ == b@),
{
    if a.len() != b.len() {
        proof {
            assert(a@ != b@);
        }
        return false;
    }
    let mut i: usize = 0;
    while i < a.len()
        invariant
            i <= a.len(),
            a@.len() == b@.len(),
            forall|j: int| 0 <= j < i ==> a@[j] == b@[j],
        decreases a.len() - i,
    {
        if a[i] != b[i] {
            proof {
                assert(a@ != b@);
            }
            return false;
        }
        i = i + 1;
    }
    proof {
        assert(a@ =~= b@);
    }
    true
}

proof fn lemma_lex_less_step(a: Seq<u8>, b: Seq<u8>, i: int)
    requires
        0 <= i,
        i <= a.len(),
        i <= b.len(),
        i < a.len() || i < b.len(),
        forall|j: int| 0 <= j < i ==> #[trigger] a[j] == b[j],
    ensures
        lex_less(a, b) == if i >= a.len() {
            true
        } else if i >= b.len() {
            false
        } else if a[i] < b[i] {
            true
        } else if a[i] > b[i] {
            false
        } else {
            lex_less(a.skip(i + 1), b.skip(i + 1))
        },
    decreases i,
{
    if i == 0 {
        if a.len() > 0 && b.len() > 0 && a[0] == b[0] {
            assert(a.skip(1) =~= a.skip(0int + 1));
        }
    } else {
        assert(a[0] == b[0]);
        assert forall|j: int| 0 <= j < i - 1 implies #[trigger] a.skip(1)[j] == b.skip(1)[j] by {
            assert(a[j + 1] == b[j + 1]);
        }
        lemma_lex_less_step(a.skip(1), b.skip(1), i - 1);
        if i < a.len() && i < b.len() && a[i] == b[i] {
            assert(a.skip(1).skip(i) =~= a.skip(i + 1));
            assert(b.skip(1).skip(i) =~= b.skip(i + 1));
        }
    }
}

/// Tests whether `a` sorts strictly before `b` in lexicographic order.
pub fn bytes_less(a: &Vec<u8>, b: &Vec<u8>) -> (r: bool)
    ensures
        r == lex_less(a@, b@),
{
    let mut i: usize = 0;
    loop
        invariant
            i <= a.len(),
            i <= b.len(),
            forall|j: int| 0 <= j < i ==> j < a@.len() && j < b@.len() && a@[j] == b@[j],
        decreases a.len() - i,
    {
        if i >= a.len() || i >= b.len() {
            proof {
                if a@.len() == b@.len() && i >= a.len() {
                    assert(a@ =~= b@);
                    lemma_lex_less_irreflexive(a@);
                } else {
                    lemma_lex_less_step(a@, b@, i as int);
                }
            }
            return i >= a.len() && i < b.len();
        }
        if a[i] < b[i] {
            proof {
                lemma_lex_less_step(a@, b@, i as int);
            }
            return true;
        }
        if a[i] > b[i] {
            proof {
                lemma_lex_less_step(a@, b@, i as int);
            }
            return false;
        }
        proof {
            lemma_lex_less_step(a@, b@, i as int);
        }
        i = i + 1;
    }
}

/// Non-strict lexicographic comparison.
pub fn bytes_leq(a: &Vec<u8>, b: &Vec<u8>) -> (r: bool)
    ensures
        r == lex_leq(a@, b@),
{
    if bytes_eq(a, b) {
        true
    } else {
        bytes_less(a, b)
    }
}

/// Big-endian encoding of a 64-bit integer, most significant byte first.
pub open spec fn spec_u64_be(x: u64) -> Seq<u8> {
    seq![
        ((x >> 56) & 0xff) as u8,
        ((x >> 48) & 0xff) as u8,
        ((x >> 40) & 0xff) as u8,
        ((x >> 32) & 0xff) as u8,
        ((x >> 24) & 0xff) as u8,
        ((x >> 16) & 0xff) as u8,
        ((x >> 8) & 0xff) as u8,
        (x & 0xff) as u8,
    ]
}

/// The integer read back from eight big-endian bytes.
pub open spec fn spec_be_u64(s: Seq<u8>) -> u64
    recommends
        s.len() == 8,
{
    (((s[0] as u64) << 56) | ((s[1] as u64) << 48) | ((s[2] as u64) << 40) | ((s[3] as u64) << 32)
        | ((s[4] as u64) << 24) | ((s[5] as u64) << 16) | ((s[6] as u64) << 8) | (s[7] as u64)) as u64
}

/// Reading back the big-endian bytes of `x` yields `x`: the encoding is
/// injective.
pub proof fn lemma_u64_be_round_trip(x: u64)
    ensures
        spec_be_u64(spec_u64_be(x)) == x,
{
    let s = spec_u64_be(x);
    assert(((((x >> 56) & 0xff) as u8) as u64) == ((x >> 56) & 0xff)) by (bit_vector);
    assert(((((x >> 48) & 0xff) as u8) as u64) == ((x >> 48) & 0xff)) by (bit_vector);
    assert(((((x >> 40) & 0xff) as u8) as u64) == ((x >> 40) & 0xff)) by (bit_vector);
    assert(((((x >> 32) & 0xff) as u8) as u64) == ((x >> 32) & 0xff)) by (bit_vector);
    assert(((((x >> 24) & 0xff) as u8) as u64) == ((x >> 24) & 0xff)) by (bit_vector);
    assert(((((x >> 16) & 0xff) as u8) as u64) == ((x >> 16) & 0xff)) by (bit_vector);
    assert(((((x >> 8) & 0xff) as u8) as u64) == ((x >> 8) & 0xff)) by (bit_vector);
    assert((((x & 0xff) as u8) as u64) == (x & 0xff)) by (bit_vector);
    assert(((((x >> 56) & 0xff) << 56) | (((x >> 48) & 0xff) << 48) | (((x >> 40) & 0xff) << 40)
        | (((x >> 32) & 0xff) << 32) | (((x >> 24) & 0xff) << 24) | (((x >> 16) & 0xff) << 16) | ((
    (x >> 8) & 0xff) << 8) | (x & 0xff)) == x) by (bit_vector);
}

/// Appends the big-endian bytes of `x` to `out`.
pub fn push_u64_be(out: &mut Vec<u8>, x: u64)
    ensures
        final(out)@ == old(out)@ + spec_u64_be(x),
{
    let ghost before = out@;
    out.push(((x >> 56) & 0xff) as u8);
    out.push(((x >> 48) & 0xff) as u8);
    out.push(((x >> 40) & 0xff) as u8);
    out.push(((x >> 32) & 0xff) as u8);
    out.push(((x >> 24) & 0xff) as u8);
    out.push(((x >> 16) & 0xff) as u8);
    out.push(((x >> 8) & 0xff) as u8);
    out.push((x & 0xff) as u8);
    proof {
        assert(out@ =~= before + spec_u64_be(x));
    }
}

/// Reads eight big-endian bytes starting at `pos`.
pub fn read_u64_be(bytes: &Vec<u8>, pos: usize) -> (r: u64)
    requires
        pos + 8 <= bytes@.len(),
    ensures
        r == spec_be_u64(bytes@.subrange(pos as int, pos + 8)),
{
    let ghost s = bytes@.subrange(pos as int, pos + 8);
    let n: usize = bytes.len();
    let b0 = bytes[pos];
    let b1 = bytes[pos + 1];
    let b2 = bytes[pos + 2];
    let b3 = bytes[pos + 3];
    let b4 = bytes[pos + 4];
    let b5 = bytes[pos + 5];
    let b6 = bytes[pos + 6];
    let b7 = bytes[pos + 7];
    ((b0 as u64) << 56) | ((b1 as u64) << 48) | ((b2 as u64) << 40) | ((b3 as u64) << 32) | ((
    b4 as u64) << 24) | ((b5 as u64) << 16) | ((b6 as u64) << 8) | (b7 as u64)
}

/// Appends the contents of `src` to `out`.
pub fn push_bytes(out: &mut Vec<u8>, src: &Vec<u8>)
    ensures
        final(out)@ == old(out)@ + src@,
{
    let ghost before = out@;
    let mut i: usize = 0;
    while i < src.len()
        invariant
            i <= src.len(),
            out@ == before + src@.take(i as int),
        decreases src.len() - i,
    {
        out.push(src[i]);
        i = i + 1;
        proof {
            assert(before + src@.take(i as int) =~= (before + src@.take(i - 1)).push(
                src@[i - 1],
            ));
        }
    }
    proof {
        assert(src@.take(src@.len() as int) =~= src@);
    }
}

/// Copies `count` bytes of `src` starting at `pos` into a fresh vector.
pub fn read_bytes(src: &Vec<u8>, pos: usize, count: usize) -> (r: Vec<u8>)
    requires
        pos + count <= src@.len(),
    ensures
        r@ == src@.subrange(pos as int, pos + count),
{
    let n: usize = src.len();
    let mut r: Vec<u8> = Vec::new();
    let mut i: usize = 0;
    while i < count
        invariant
            i <= count,
            pos + count <= n,
            n == src@.len(),
            r@ == src@.subrange(pos as int, pos + i),
        decreases count - i,
    {
        r.push(src[pos + i]);
        i = i + 1;
        proof {
            assert(src@.subrange(pos as int, pos + i) =~= src@.subrange(pos as int, pos + i - 1)
                .push(src@[pos + i - 1]));
        }
    }
    r
}

} // verus!
