//! Little-endian encodings of words and the lemmas that read them back.
use vstd::prelude::*;

use vstd::bytes::{
    spec_u32_to_le_bytes, spec_u64_from_le_bytes, spec_u64_to_le_bytes, u32_to_le_bytes,
    u64_from_le_bytes, u64_to_le_bytes,
};
use vstd::slice::slice_subrange;

verus! {

/// The little-endian encoding of the words `w`, one after another.
pub open spec fn words_le(w: Seq<u64>) -> Seq<u8> {
    Seq::new((8 * w.len()) as nat, |i: int| spec_u64_to_le_bytes(w[i / 8])[i % 8])
}

/// The word stored little-endian at byte `offset` of `s`.
pub open spec fn u64_at(s: Seq<u8>, offset: int) -> u64 {
    spec_u64_from_le_bytes(s.subrange(offset, offset + 8))
}

/// The `n` words stored one after another from the start of `s`.
pub open spec fn read_words(s: Seq<u8>, n: nat) -> Seq<u64> {
    Seq::new(n, |k: int| u64_at(s, 8 * k))
}

/// Encoding one more word appends that word's bytes.
pub proof fn lemma_words_le_push(w: Seq<u64>, x: u64)
    ensures
        words_le(w.push(x)) =~= words_le(w) + spec_u64_to_le_bytes(x),
{
    vstd::bytes::lemma_auto_spec_u64_to_from_le_bytes();
    let n = w.len();
    assert forall|i: int| 0 <= i < 8 * n + 8 implies #[trigger] words_le(w.push(x))[i] == (
    words_le(w) + spec_u64_to_le_bytes(x))[i] by {
        if i < 8 * n {
            assert(i / 8 < n);
        } else {
            assert(i / 8 == n);
            assert(i % 8 == i - 8 * n);
        }
    }
}

pub proof fn lemma_words_le_read(w: Seq<u64>, k: int)
    requires
        0 <= k < w.len(),
    ensures
        u64_at(words_le(w), 8 * k) == w[k],
{
    vstd::bytes::lemma_auto_spec_u64_to_from_le_bytes();
    let s = words_le(w).subrange(8 * k, 8 * k + 8);
    assert forall|j: int| 0 <= j < 8 implies #[trigger] s[j] == spec_u64_to_le_bytes(w[k])[j] by {
        assert((8 * k + j) / 8 == k);
        assert((8 * k + j) % 8 == j);
    }
    assert(s =~= spec_u64_to_le_bytes(w[k]));
}

/// Reading back the words of an encoding gives the words.
pub proof fn lemma_read_words_le(w: Seq<u64>)
    ensures
        words_le(w).len() == 8 * w.len(),
        read_words(words_le(w), w.len()) == w,
{
    assert forall|k: int| 0 <= k < w.len() implies #[trigger] read_words(words_le(w), w.len())[k]
        == w[k] by {
        lemma_words_le_read(w, k);
    }
    assert(read_words(words_le(w), w.len()) =~= w);
}

/// Appends the little-endian bytes of `value`.
pub(crate) fn push_u64_le(out: &mut Vec<u8>, value: u64)
    ensures
        final(out)@ == old(out)@ + spec_u64_to_le_bytes(value),
{
    let mut bytes = u64_to_le_bytes(value);
    out.append(&mut bytes);
}

/// Appends the little-endian bytes of `value`.
pub(crate) fn push_u32_le(out: &mut Vec<u8>, value: u32)
    ensures
        final(out)@ == old(out)@ + spec_u32_to_le_bytes(value),
{
    let mut bytes = u32_to_le_bytes(value);
    out.append(&mut bytes);
}

/// Appends the little-endian encoding of `words`.
pub(crate) fn push_words(out: &mut Vec<u8>, words: &Vec<u64>)
    ensures
        final(out)@ == old(out)@ + words_le(words@),
{
    let ghost start = out@;
    proof {
        assert(words@.subrange(0, 0) =~= Seq::<u64>::empty());
        assert(words_le(Seq::<u64>::empty()) =~= Seq::<u8>::empty());
        assert(out@ =~= start + words_le(words@.subrange(0, 0)));
    }
    let mut k: usize = 0;
    while k < words.len()
        invariant
            0 <= k <= words.len(),
            out@ == start + words_le(words@.subrange(0, k as int)),
        decreases words.len() - k,
    {
        let value = words[k];
        push_u64_le(out, value);
        proof {
            lemma_words_le_push(words@.subrange(0, k as int), value);
            assert(words@.subrange(0, k as int).push(value) =~= words@.subrange(0, k + 1));
        }
        k = k + 1;
    }
    proof {
        assert(words@.subrange(0, k as int) =~= words@);
    }
}

/// The word stored little-endian at byte `offset` of `bytes`.
pub(crate) fn read_u64_at(bytes: &[u8], offset: usize) -> (value: u64)
    requires
        offset + 8 <= bytes@.len(),
    ensures
        value == u64_at(bytes@, offset as int),
{
    let length = bytes.len();
    let end = offset + 8;
    let slot = slice_subrange(bytes, offset, end);
    u64_from_le_bytes(slot)
}

pub proof fn lemma_words_le_single(x: u64)
    ensures
        words_le(seq![x]) =~= vstd::bytes::spec_u64_to_le_bytes(x),
{
    lemma_words_le_push(Seq::<u64>::empty(), x);
    assert(Seq::<u64>::empty().push(x) =~= seq![x]);
    assert(words_le(Seq::<u64>::empty()) =~= Seq::<u8>::empty());
}

pub proof fn lemma_words_le_concat(a: Seq<u64>, b: Seq<u64>)
    ensures
        words_le(a + b) =~= words_le(a) + words_le(b),
    decreases b.len(),
{
    if b.len() == 0 {
        assert(a + b =~= a);
        assert(words_le(b) =~= Seq::<u8>::empty());
    } else {
        lemma_words_le_concat(a, b.drop_last());
        assert(a + b =~= (a + b.drop_last()).push(b.last()));
        assert(b =~= b.drop_last().push(b.last()));
        lemma_words_le_push(a + b.drop_last(), b.last());
        lemma_words_le_push(b.drop_last(), b.last());
    }
}

} // verus!
