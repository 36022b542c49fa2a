use vstd::prelude::*;
use crate::model::{AckState, FORWARD_LIMIT, WINDOW, bit, wrap_diff, wrap_sub};

verus! {

/// The first sequence number recorded by a fresh tracker becomes the newest
/// one, with an empty field.
pub proof fn lemma_first_record(seq: u16)
    ensures
        AckState::fresh().record(seq) == (AckState { initialized: true, last_seq: seq, field: 0 }),
{
}

/// Recording the same sequence number twice in a row leaves the state that
/// recording it once gave.
pub proof fn lemma_record_idempotent(st: AckState, seq: u16)
    ensures
        st.record(seq).record(seq) == st.record(seq),
{
    if st.initialized {
        let f = st.field;
        let n = wrap_diff(st.last_seq, seq);
        if wrap_diff(seq, st.last_seq) >= FORWARD_LIMIT && 1 <= n <= WINDOW {
            let b = (n - 1) as u32;
            assert((f | (1u32 << b)) | (1u32 << b) == f | (1u32 << b)) by (bit_vector);
        }
    }
}

/// The sequence numbers `0, 1, ..., k`.
pub open spec fn run_to(k: u16) -> Seq<u16> {
    Seq::new(k as nat + 1, |i: int| i as u16)
}

/// The field whose lowest `k` bits are set and no other.
pub open spec fn low_bits(k: u32) -> u32 {
    ((1u32 << k) - 1u32) as u32
}

proof fn lemma_low_bits_step(k: u32)
    requires
        1 <= k < 32,
    ensures
        ((low_bits((k - 1) as u32) << 1u32) | 1u32) << 0u32 == low_bits(k),
{
    assert((((((1u32 << ((k - 1) as u32)) - 1u32) as u32) << 1u32) | 1u32) << 0u32
        == ((1u32 << k) - 1u32) as u32) by (bit_vector)
        requires
            1 <= k < 32,
    ;
}

/// Recording `0, 1, ..., k` in order on a fresh tracker, for `k` below 32,
/// leaves `k` as the newest number and the lowest `k` bits of the field set.
pub proof fn lemma_monotonic_run(k: u16)
    requires
        k < 32,
    ensures
        AckState::fresh().replay(run_to(k)) == (AckState {
            initialized: true,
            last_seq: k,
            field: low_bits(k as u32),
        }),
    decreases k,
{
    let s = run_to(k);
    assert(s.last() == k);
    if k == 0 {
        assert(s.drop_last() =~= Seq::<u16>::empty());
        assert(low_bits(0) == 0) by (bit_vector);
        assert(AckState::fresh().replay(s.drop_last()) == AckState::fresh());
    } else {
        let p = (k - 1) as u16;
        assert(s.drop_last() =~= run_to(p));
        lemma_monotonic_run(p);
        lemma_low_bits_step(k as u32);
        assert(wrap_diff(k, p) == 1);
        let prev = AckState::fresh().replay(run_to(p));
        assert(AckState::fresh().replay(s) == prev.record(k));
        assert(prev.record(k).field == low_bits(k as u32));
    }
}

/// The sequence numbers `seqs`, each moved back by `c`, wrapping.
pub open spec fn shift_all(seqs: Seq<u16>, c: u16) -> Seq<u16> {
    seqs.map_values(|s: u16| wrap_sub(s, c))
}

proof fn lemma_wrap_diff_shift(a: u16, b: u16, c: u16)
    ensures
        wrap_diff(wrap_sub(a, c), wrap_sub(b, c)) == wrap_diff(a, b),
{
    assert(wrap_diff(wrap_sub(a, c), wrap_sub(b, c)) == wrap_diff(a, b)) by (bit_vector);
}

/// Recording commutes with moving every sequence number back by `c`.
pub proof fn lemma_record_shift(st: AckState, seq: u16, c: u16)
    ensures
        st.shifted(c).record(wrap_sub(seq, c)) == st.record(seq).shifted(c),
{
    lemma_wrap_diff_shift(seq, st.last_seq, c);
    lemma_wrap_diff_shift(st.last_seq, seq, c);
}

/// Recording a run of sequence numbers each moved back by `c` (wrapping, so
/// the run may straddle 65535 and 0) gives the state that the run itself
/// gives, with its newest number moved back by `c` and the same field.
pub proof fn lemma_replay_shift(st: AckState, seqs: Seq<u16>, c: u16)
    ensures
        st.shifted(c).replay(shift_all(seqs, c)) == st.replay(seqs).shifted(c),
    decreases seqs.len(),
{
    if seqs.len() > 0 {
        assert(shift_all(seqs, c).drop_last() =~= shift_all(seqs.drop_last(), c));
        lemma_replay_shift(st, seqs.drop_last(), c);
        lemma_record_shift(st.replay(seqs.drop_last()), seqs.last(), c);
    }
}

proof fn lemma_replay_ignores_unset(a: AckState, b: AckState, seqs: Seq<u16>)
    requires
        !a.initialized,
        !b.initialized,
        a.field == b.field,
        seqs.len() > 0,
    ensures
        a.replay(seqs) == b.replay(seqs),
    decreases seqs.len(),
{
    if seqs.len() > 1 {
        lemma_replay_ignores_unset(a, b, seqs.drop_last());
    } else {
        assert(a.replay(seqs.drop_last()) == a);
        assert(b.replay(seqs.drop_last()) == b);
    }
}

/// On a fresh tracker, a non-empty run of sequence numbers each moved back by
/// `c` (wrapping) gives the state that the run itself gives, with its newest
/// number moved back by `c` and the same field.
pub proof fn lemma_fresh_replay_shift(seqs: Seq<u16>, c: u16)
    requires
        seqs.len() > 0,
    ensures
        AckState::fresh().replay(shift_all(seqs, c)) == AckState::fresh().replay(seqs).shifted(c),
{
    lemma_replay_shift(AckState::fresh(), seqs, c);
    lemma_replay_ignores_unset(AckState::fresh(), AckState::fresh().shifted(c), shift_all(seqs, c));
}

proof fn lemma_bit_advance(f: u32, d: u32, i: u32)
    requires
        1 <= d <= 32,
        i < 32,
    ensures
        bit(((f << 1u32) | 1u32) << ((d - 1) as u32), i) == (i == d - 1 || (i >= d && bit(
            f,
            (i - d) as u32,
        ))),
{
    assert(((((f << 1u32) | 1u32) << ((d - 1) as u32)) >> i) & 1u32 == 1u32 <==> (i == d - 1 || (i
        >= d && (f >> ((i - d) as u32)) & 1u32 == 1u32))) by (bit_vector)
        requires
            1 <= d <= 32,
            i < 32,
    ;
}

proof fn lemma_bit_insert(f: u32, n: u32, i: u32)
    requires
        n < 32,
        i < 32,
    ensures
        bit(f | (1u32 << n), i) == (bit(f, i) || i == n),
        !bit(0u32, i),
{
    assert(((f | (1u32 << n)) >> i) & 1u32 == 1u32 <==> ((f >> i) & 1u32 == 1u32 || i == n))
        by (bit_vector)
        requires
            n < 32,
            i < 32,
    ;
    assert((0u32 >> i) & 1u32 != 1u32) by (bit_vector);
}

proof fn lemma_wrap_diff_sum(a: u16, b: u16, c: u16)
    ensures
        wrap_diff(a, c) == (wrap_diff(a, b) + wrap_diff(b, c)) % 0x10000,
        wrap_diff(a, b) == wrap_diff(a, c) <==> b == c,
        wrap_diff(a, b) == 0 <==> a == b,
{
    assert(wrap_diff(a, c) == (wrap_diff(a, b) + wrap_diff(b, c)) % 0x10000) by (bit_vector);
    assert(wrap_diff(a, b) == wrap_diff(a, c) <==> b == c) by (bit_vector);
    assert(wrap_diff(a, b) == 0 <==> a == b) by (bit_vector);
}

/// What recording `seq` does to the set of acknowledged sequence numbers.
/// The first number recorded is the only one acknowledged. A number at most
/// 31999 ahead of the newest one joins the set, and of the rest only those at
/// most 32 behind it stay. A number at most 32 behind the newest one joins
/// the set. Any other number changes nothing.
pub proof fn lemma_record_acked(st: AckState, seq: u16, s: u16)
    requires
        st.wf(),
    ensures
        st.record(seq).wf(),
        st.record(seq).acked(s) == if !st.initialized {
            s == seq
        } else if 0 < wrap_diff(seq, st.last_seq) < FORWARD_LIMIT {
            s == seq || (st.acked(s) && wrap_diff(seq, s) <= WINDOW)
        } else if wrap_diff(st.last_seq, seq) <= WINDOW {
            st.acked(s) || s == seq
        } else {
            st.acked(s)
        },
{
    let last = st.last_seq;
    let pos = wrap_diff(seq, last);
    let neg = wrap_diff(last, seq);
    let k = wrap_diff(seq, s);
    let j = wrap_diff(last, s);
    lemma_wrap_diff_sum(seq, last, s);
    lemma_wrap_diff_sum(last, seq, s);
    lemma_wrap_diff_sum(seq, s, last);
    lemma_wrap_diff_sum(last, s, seq);
    if !st.initialized {
        if 1 <= k <= WINDOW {
            lemma_bit_insert(0u32, 0u32, (k - 1) as u32);
        }
    } else if pos == 0 {
    } else if pos < FORWARD_LIMIT {
        if 1 <= k <= WINDOW {
            if pos <= WINDOW {
                lemma_bit_advance(st.field, pos as u32, (k - 1) as u32);
            } else {
                lemma_bit_insert(0u32, 0u32, (k - 1) as u32);
            }
        }
    } else if neg <= WINDOW {
        if 1 <= j <= WINDOW {
            lemma_bit_insert(st.field, (neg - 1) as u32, (j - 1) as u32);
        }
    }
}

} // verus!
