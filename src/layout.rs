//! Byte layouts of the values that syscalls hand to user space, and the
//! split of such bytes over the kernel-writable pieces that a user buffer
//! translates to.

use vstd::prelude::*;

verus! {

/// Bytes in a machine word.
pub const WORD_BYTES: usize = 8;

/// The `n` low bytes of `v`, least significant first.
pub open spec fn le_bytes(v: nat, n: nat) -> Seq<u8>
    decreases n,
{
    if n == 0 {
        Seq::empty()
    } else {
        seq![(v % 256) as u8] + le_bytes(v / 256, (n - 1) as nat)
    }
}

/// Appends the `n` low bytes of `v` to `out`, least significant first.
pub fn push_le(out: &mut Vec<u8>, v: u64, n: usize)
    ensures
        final(out)@ == old(out)@ + le_bytes(v as nat, n as nat),
{
    let mut rest: u64 = v;
    let mut i: usize = 0;
    while i < n
        invariant
            i <= n,
            out@ + le_bytes(rest as nat, (n - i) as nat) == old(out)@ + le_bytes(v as nat, n as nat),
        decreases n - i,
    {
        let ghost before = out@;
        proof {
            assert(le_bytes(rest as nat, (n - i) as nat) == seq![(rest % 256) as u8] + le_bytes(
                (rest / 256) as nat,
                (n - i - 1) as nat,
            ));
        }
        out.push((rest % 256) as u8);
        assert(out@ + le_bytes((rest / 256) as nat, (n - i - 1) as nat) =~= before + (seq![
            (rest % 256) as u8,
        ] + le_bytes((rest / 256) as nat, (n - i - 1) as nat)));
        rest = rest / 256;
        i += 1;
    }
    assert(le_bytes(rest as nat, 0) =~= Seq::<u8>::empty());
    assert(out@ =~= out@ + le_bytes(rest as nat, 0));
}

/// The sum of `lens`.
pub open spec fn total(lens: Seq<usize>) -> nat
    decreases lens.len(),
{
    if lens.len() == 0 {
        0
    } else {
        total(lens.drop_last()) + lens.last() as nat
    }
}

/// Where piece `i` starts when pieces of lengths `lens` are laid end to end.
pub open spec fn offset(lens: Seq<usize>, i: int) -> nat {
    total(lens.take(i))
}

proof fn lemma_total_take(lens: Seq<usize>, i: int)
    requires
        0 <= i <= lens.len(),
    ensures
        total(lens.take(i)) <= total(lens),
    decreases lens.len(),
{
    if i < lens.len() {
        assert(lens.take(i) =~= lens.drop_last().take(i));
        lemma_total_take(lens.drop_last(), i);
    } else {
        assert(lens.take(i) =~= lens);
    }
}

proof fn lemma_total_step(lens: Seq<usize>, i: int)
    requires
        0 <= i < lens.len(),
    ensures
        total(lens.take(i + 1)) == total(lens.take(i)) + lens[i],
{
    assert(lens.take(i + 1).drop_last() =~= lens.take(i));
}

/// Splits `src` into consecutive pieces of lengths `lens`, in order: piece
/// `i` holds the bytes of `src` from the sum of the lengths before it on.
pub fn split_into(src: &Vec<u8>, lens: &Vec<usize>) -> (r: Vec<Vec<u8>>)
    requires
        total(lens@) == src@.len(),
    ensures
        r@.len() == lens@.len(),
        forall|i: int|
            0 <= i < lens@.len() ==> #[trigger] r@[i]@ == src@.subrange(
                offset(lens@, i) as int,
                offset(lens@, i) + lens@[i],
            ),
{
    let mut r: Vec<Vec<u8>> = Vec::new();
    let src_len = src.len();
    let mut pos: usize = 0;
    let mut i: usize = 0;
    while i < lens.len()
        invariant
            src_len == src@.len(),
            i <= lens@.len(),
            total(lens@) == src@.len(),
            r@.len() == i,
            pos == offset(lens@, i as int),
            forall|k: int|
                0 <= k < i ==> #[trigger] r@[k]@ == src@.subrange(
                    offset(lens@, k) as int,
                    offset(lens@, k) + lens@[k],
                ),
        decreases lens@.len() - i,
    {
        proof {
            lemma_total_step(lens@, i as int);
            lemma_total_take(lens@, i as int + 1);
        }
        let n = lens[i];
        assert(offset(lens@, i + 1) == pos + n);
        assert(pos + n <= src@.len());
        let mut piece: Vec<u8> = Vec::new();
        let mut j: usize = 0;
        while j < n
            invariant
                j <= n,
                pos + n <= src_len,
                src_len == src@.len(),
                piece@ == src@.subrange(pos as int, pos + j),
            decreases n - j,
        {
            piece.push(src[pos + j]);
            j += 1;
            assert(piece@ =~= src@.subrange(pos as int, pos + j));
        }
        r.push(piece);
        pos = pos + n;
        i += 1;
    }
    r
}

} // verus!
