//! Big-endian numbers.

use vstd::prelude::*;

verus! {

/// The number that some bytes spell, high byte first.
pub open spec fn be_value(b: Seq<u8>) -> nat
    decreases b.len(),
{
    if b.len() == 0 {
        0
    } else {
        be_value(b.drop_last()) * 256 + b.last() as nat
    }
}

/// The low `width` bytes of a number, high byte first.
pub open spec fn be_bytes(n: nat, width: nat) -> Seq<u8>
    decreases width,
{
    if width == 0 {
        Seq::empty()
    } else {
        be_bytes(n / 256, (width - 1) as nat).push((n % 256) as u8)
    }
}

pub open spec fn byte_power(width: nat) -> nat
    decreases width,
{
    if width == 0 {
        1
    } else {
        256 * byte_power((width - 1) as nat)
    }
}

pub proof fn lemma_be_bytes_len(n: nat, width: nat)
    ensures
        be_bytes(n, width).len() == width,
    decreases width,
{
    if width > 0 {
        lemma_be_bytes_len(n / 256, (width - 1) as nat);
    }
}

/// Reading the bytes of a number gives the number back.
pub proof fn law_be_value_of_bytes(n: nat, width: nat)
    requires
        n < byte_power(width),
    ensures
        be_value(be_bytes(n, width)) == n,
    decreases width,
{
    if width > 0 {
        law_be_value_of_bytes(n / 256, (width - 1) as nat);
        let b = be_bytes(n, width);
        assert(b.drop_last() =~= be_bytes(n / 256, (width - 1) as nat));
    }
}

pub proof fn lemma_be_value_bound(b: Seq<u8>)
    ensures
        be_value(b) < byte_power(b.len()),
    decreases b.len(),
{
    if b.len() > 0 {
        lemma_be_value_bound(b.drop_last());
    }
}

/// Writing the number that some bytes spell gives the bytes back.
pub proof fn law_be_bytes_of_value(b: Seq<u8>)
    ensures
        be_bytes(be_value(b), b.len()) == b,
    decreases b.len(),
{
    if b.len() > 0 {
        law_be_bytes_of_value(b.drop_last());
        assert(be_value(b) / 256 == be_value(b.drop_last()));
        assert(be_value(b) % 256 == b.last() as nat);
        assert(be_bytes(be_value(b), b.len()) =~= b);
    } else {
        assert(be_bytes(be_value(b), b.len()) =~= b);
    }
}

/// The first place where two strings of bytes differ decides their order.
pub open spec fn lex_less(a: Seq<u8>, b: Seq<u8>) -> bool {
    exists|i: int|
        0 <= i <= a.len() && i < b.len() && a.take(i) == #[trigger] b.take(i) && (i == a.len() || a[i]
            < b[i])
}

/// Big-endian strings of one length are ordered as the numbers they spell.
pub proof fn law_be_order(a: Seq<u8>, b: Seq<u8>)
    requires
        a.len() == b.len(),
    ensures
        lex_less(a, b) <==> be_value(a) < be_value(b),
    decreases a.len(),
{
    if a.len() == 0 {
        assert(!lex_less(a, b));
    } else {
        let (x, y) = (a.drop_last(), b.drop_last());
        law_be_order(x, y);
        law_be_order(y, x);
        if lex_less(a, b) {
            let i = choose|i: int|
                0 <= i <= a.len() && i < b.len() && a.take(i) == #[trigger] b.take(i) && (i == a.len()
                    || a[i] < b[i]);
            if i < x.len() {
                assert(x.take(i) =~= a.take(i));
                assert(y.take(i) =~= b.take(i));
                assert(x.take(i) == y.take(i));
                assert(lex_less(x, y));
            } else {
                assert(x =~= a.take(i));
                assert(y =~= b.take(i));
            }
        }
        if be_value(a) < be_value(b) {
            if be_value(x) < be_value(y) {
                let i = choose|i: int|
                    0 <= i <= x.len() && i < y.len() && x.take(i) == #[trigger] y.take(i) && (i
                        == x.len() || x[i] < y[i]);
                assert(x.take(i) =~= a.take(i));
                assert(y.take(i) =~= b.take(i));
                assert(a.take(i) == b.take(i));
            } else {
                assert(be_value(x) == be_value(y));
                law_be_bytes_of_value(x);
                law_be_bytes_of_value(y);
                let i = a.len() - 1;
                assert(a.take(i) =~= x);
                assert(b.take(i) =~= y);
                assert(a.take(i) == b.take(i));
            }
        }
    }
}

pub proof fn lemma_powers()
    ensures
        byte_power(4) == 0x1_0000_0000,
        byte_power(8) == 0x1_0000_0000_0000_0000,
{
    reveal_with_fuel(byte_power, 9);
}

/// The eight bytes of a number.
pub fn u64_be(n: u64) -> (b: [u8; 8])
    ensures
        b@ == be_bytes(n as nat, 8),
{
    let n1: u64 = n / 256;
    let n2: u64 = n1 / 256;
    let n3: u64 = n2 / 256;
    let n4: u64 = n3 / 256;
    let n5: u64 = n4 / 256;
    let n6: u64 = n5 / 256;
    let n7: u64 = n6 / 256;
    let b: [u8; 8] = [
        (n7 % 256) as u8,
        (n6 % 256) as u8,
        (n5 % 256) as u8,
        (n4 % 256) as u8,
        (n3 % 256) as u8,
        (n2 % 256) as u8,
        (n1 % 256) as u8,
        (n % 256) as u8,
    ];
    proof {
        reveal_with_fuel(be_bytes, 9);
        assert(b@ =~= be_bytes(n as nat, 8));
    }
    b
}

/// Appends the four bytes of a number.
pub fn push_u32_be(out: &mut Vec<u8>, n: u32)
    ensures
        final(out)@ == old(out)@ + be_bytes(n as nat, 4),
{
    let n1: u32 = n / 256;
    let n2: u32 = n1 / 256;
    let n3: u32 = n2 / 256;
    out.push((n3 % 256) as u8);
    out.push((n2 % 256) as u8);
    out.push((n1 % 256) as u8);
    out.push((n % 256) as u8);
    proof {
        reveal_with_fuel(be_bytes, 5);
        assert(out@ =~= old(out)@ + be_bytes(n as nat, 4));
    }
}

/// Appends the eight bytes of a number.
pub fn push_u64_be(out: &mut Vec<u8>, n: u64)
    ensures
        final(out)@ == old(out)@ + be_bytes(n as nat, 8),
{
    let b: [u8; 8] = u64_be(n);
    let mut i: usize = 0;
    while i < 8
        invariant
            0 <= i <= 8,
            out@ == old(out)@ + b@.take(i as int),
        decreases 8 - i,
    {
        out.push(b[i]);
        assert(b@.take(i + 1) =~= b@.take(i as int).push(b@[i as int]));
        assert(out@ =~= old(out)@ + b@.take(i + 1));
        i = i + 1;
    }
    assert(b@.take(8) =~= b@);
}

/// The number in the four bytes from `at`.
pub fn read_u32_be(b: &[u8], at: usize) -> (n: u32)
    requires
        at + 4 <= b@.len(),
    ensures
        n == be_value(b@.subrange(at as int, at + 4)),
{
    proof {
        let s = b@.subrange(at as int, at + 4);
        reveal_with_fuel(be_value, 5);
        assert(s.drop_last().drop_last().drop_last().drop_last().len() == 0);
    }
    ((b[at] as u32 * 256 + b[at + 1] as u32) * 256 + b[at + 2] as u32) * 256 + b[at + 3] as u32
}

/// The number in the eight bytes from `at`.
pub fn read_u64_be(b: &[u8], at: usize) -> (n: u64)
    requires
        at + 8 <= b@.len(),
    ensures
        n == be_value(b@.subrange(at as int, at + 8)),
{
    assert(b.len() <= usize::MAX);
    let high: u32 = read_u32_be(b, at);
    let low: u32 = read_u32_be(b, at + 4);
    proof {
        let s = b@.subrange(at as int, at + 8);
        reveal_with_fuel(be_value, 5);
        let t = s.drop_last().drop_last().drop_last().drop_last();
        assert(t =~= b@.subrange(at as int, at + 4));
        let u = b@.subrange(at + 4, at + 8);
        assert(u.drop_last().drop_last().drop_last().drop_last().len() == 0);
        assert(be_value(s) == be_value(t) * 0x1_0000_0000 + be_value(u));
    }
    high as u64 * 0x1_0000_0000 + low as u64
}

} // verus!
