//! Byte sequences: repetition of a record, appending and comparing.

use vstd::prelude::*;

verus! {

/// The record `unit` written `n` times in a row.
pub open spec fn repeated(unit: Seq<u8>, n: nat) -> Seq<u8>
    decreases n,
{
    if n == 0 {
        Seq::<u8>::empty()
    } else {
        repeated(unit, (n - 1) as nat) + unit
    }
}

/// `n` records of one size take `n` times that size.
pub proof fn lemma_repeated_len(unit: Seq<u8>, n: nat)
    ensures
        repeated(unit, n).len() == n * unit.len(),
    decreases n,
{
    if n > 0 {
        lemma_repeated_len(unit, (n - 1) as nat);
        assert(n * unit.len() == (n - 1) * unit.len() + unit.len()) by (nonlinear_arith);
    } else {
        assert(0 * unit.len() == 0) by (nonlinear_arith);
    }
}

/// The last record of a non-empty repetition is the record itself, and it
/// starts where the repetition of one record fewer ends.
pub proof fn lemma_repeated_last(unit: Seq<u8>, n: nat)
    requires
        n > 0,
    ensures
        repeated(unit, n).len() == repeated(unit, (n - 1) as nat).len() + unit.len(),
        repeated(unit, n).subrange(
            repeated(unit, (n - 1) as nat).len() as int,
            repeated(unit, n).len() as int,
        ) == unit,
        repeated(unit, n).subrange(0, repeated(unit, (n - 1) as nat).len() as int) == repeated(
            unit,
            (n - 1) as nat,
        ),
{
    let before = repeated(unit, (n - 1) as nat);
    assert(repeated(unit, n) == before + unit);
    assert((before + unit).subrange(before.len() as int, (before + unit).len() as int) =~= unit);
    assert((before + unit).subrange(0, before.len() as int) =~= before);
}

/// Repeating an empty record gives nothing, however often.
pub proof fn lemma_repeated_empty(unit: Seq<u8>, n: nat)
    requires
        unit.len() == 0,
    ensures
        repeated(unit, n) == Seq::<u8>::empty(),
    decreases n,
{
    if n > 0 {
        lemma_repeated_empty(unit, (n - 1) as nat);
        assert(repeated(unit, (n - 1) as nat) + unit =~= Seq::<u8>::empty());
    }
}

/// Appends `src` to `dst`.
pub fn append_bytes(dst: &mut Vec<u8>, src: &[u8])
    ensures
        final(dst)@ == old(dst)@ + src@,
{
    let mut i: usize = 0;
    while i < src.len()
        invariant
            i <= src@.len(),
            dst@ == old(dst)@ + src@.take(i as int),
        decreases src@.len() - i,
    {
        dst.push(src[i]);
        assert(src@.take(i as int).push(src@[i as int]) =~= src@.take(i + 1));
        i = i + 1;
    }
    assert(src@.take(src@.len() as int) =~= src@);
}

/// A fresh vector holding the bytes of `src`.
pub fn copy_bytes(src: &[u8]) -> (out: Vec<u8>)
    ensures
        out@ == src@,
{
    let mut out: Vec<u8> = Vec::new();
    append_bytes(&mut out, src);
    assert(Seq::<u8>::empty() + src@ =~= src@);
    out
}

/// Whether two byte strings are equal, length and content.
pub fn same_bytes(a: &[u8], b: &[u8]) -> (same: bool)
    ensures
        same == (a@ == b@),
{
    if a.len() != b.len() {
        return false;
    }
    let mut i: usize = 0;
    while i < a.len()
        invariant
            a@.len() == b@.len(),
            i <= a@.len(),
            a@.take(i as int) == b@.take(i as int),
        decreases a@.len() - i,
    {
        if a[i] != b[i] {
            return false;
        }
        assert(a@.take(i + 1) =~= a@.take(i as int).push(a@[i as int]));
        assert(b@.take(i + 1) =~= b@.take(i as int).push(b@[i as int]));
        i = i + 1;
    }
    assert(a@.take(a@.len() as int) =~= a@);
    assert(b@.take(b@.len() as int) =~= b@);
    true
}

/// Builds `unit` repeated `n` times as one block.
///
/// The block is refused, with `None`, exactly when its size would not fit in
/// `usize`.
pub fn repeat_bytes(unit: &[u8], n: u64) -> (out: Option<Vec<u8>>)
    ensures
        out is Some <==> n * unit@.len() <= usize::MAX,
        out matches Some(block) ==> block@ == repeated(unit@, n as nat),
{
    let mut block: Vec<u8> = Vec::new();
    if unit.len() == 0 {
        proof {
            lemma_repeated_empty(unit@, n as nat);
            assert(n * unit@.len() == 0) by (nonlinear_arith)
                requires
                    unit@.len() == 0,
            ;
        }
        return Some(block);
    }
    assert(n * unit@.len() <= u64::MAX * usize::MAX) by (nonlinear_arith)
        requires
            0 <= n <= u64::MAX,
            0 <= unit@.len() <= usize::MAX,
    ;
    let total: u128 = (n as u128) * (unit.len() as u128);
    if total > usize::MAX as u128 {
        return None;
    }
    assert(n <= n * unit@.len()) by (nonlinear_arith)
        requires
            unit@.len() >= 1,
            n >= 0,
    ;
    let mut done: u64 = 0;
    while done < n
        invariant
            done <= n,
            block@ == repeated(unit@, done as nat),
        decreases n - done,
    {
        append_bytes(&mut block, unit);
        done = done + 1;
    }
    Some(block)
}

} // verus!
