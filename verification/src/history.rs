//! Fixed-length sample windows: the newest sample enters at the end and the
//! oldest one leaves from the front, so a window always spans the last
//! `HISTORY_LEN` ticks.

use vstd::prelude::*;

verus! {

/// Number of samples kept per history (one per second: a minute).
pub const HISTORY_LEN: usize = 60;

/// A window of `HISTORY_LEN` zeros, the state before any sample was taken.
pub fn zero_history() -> (h: Vec<u64>)
    ensures
        h@ == Seq::new(HISTORY_LEN as nat, |_i: int| 0u64),
{
    let mut h: Vec<u64> = Vec::new();
    let mut i: usize = 0;
    while i < HISTORY_LEN
        invariant
            i <= HISTORY_LEN,
            h@ == Seq::new(i as nat, |_j: int| 0u64),
        decreases HISTORY_LEN - i,
    {
        h.push(0);
        i = i + 1;
        assert(h@ =~= Seq::new(i as nat, |_j: int| 0u64));
    }
    h
}

/// The window after one more sample: the oldest sample leaves, `v` enters last.
pub open spec fn shifted(h: Seq<u64>, v: u64) -> Seq<u64> {
    h.drop_first().push(v)
}

/// Drops the oldest sample of a non-empty window and appends `v`.
pub fn record(h: &mut Vec<u64>, v: u64)
    requires
        old(h)@.len() > 0,
    ensures
        final(h)@ == shifted(old(h)@, v),
{
    h.remove(0);
    h.push(v);
    assert(h@ =~= shifted(old(h)@, v));
}

/// The window after recording every value of `vs` in turn.
pub open spec fn shifted_all(h: Seq<u64>, vs: Seq<u64>) -> Seq<u64>
    decreases vs.len(),
{
    if vs.len() == 0 {
        h
    } else {
        shifted(shifted_all(h, vs.drop_last()), vs.last())
    }
}

/// Recording values keeps the window's length, and the window is then the
/// last `h.len()` values of the old window followed by the recorded values.
pub proof fn lemma_window_slides(h: Seq<u64>, vs: Seq<u64>)
    requires
        h.len() > 0,
    ensures
        shifted_all(h, vs).len() == h.len(),
        shifted_all(h, vs) =~= (h + vs).subrange(vs.len() as int, (vs.len() + h.len()) as int),
    decreases vs.len(),
{
    if vs.len() > 0 {
        let prev = vs.drop_last();
        lemma_window_slides(h, prev);
        let w = shifted_all(h, prev);
        assert(shifted_all(h, vs) == shifted(w, vs.last()));
        assert(shifted(w, vs.last()) =~= (h + vs).subrange(vs.len() as int, (vs.len() + h.len()) as int)) by {
            assert forall|i: int| 0 <= i < h.len() implies #[trigger] shifted(w, vs.last())[i] == (h
                + vs).subrange(vs.len() as int, (vs.len() + h.len()) as int)[i] by {
                if i < h.len() - 1 {
                    assert(shifted(w, vs.last())[i] == w[i + 1]);
                    assert(w[i + 1] == (h + prev)[prev.len() + i + 1]);
                } else {
                    assert(shifted(w, vs.last())[i] == vs.last());
                }
            }
        }
    }
}

/// A window that has seen at least as many samples as it holds consists of
/// exactly the latest samples: nothing from before them is left.
pub proof fn lemma_window_holds_latest(h: Seq<u64>, vs: Seq<u64>)
    requires
        h.len() > 0,
        vs.len() >= h.len(),
    ensures
        shifted_all(h, vs) =~= vs.subrange(vs.len() - h.len(), vs.len() as int),
{
    lemma_window_slides(h, vs);
    assert forall|i: int| 0 <= i < h.len() implies #[trigger] shifted_all(h, vs)[i] == vs.subrange(
        vs.len() - h.len(),
        vs.len() as int,
    )[i] by {
        assert((h + vs)[vs.len() + i] == vs[vs.len() - h.len() + i]);
    }
}

/// The newest sample of a window, or 0 for an empty one.
pub open spec fn newest(h: Seq<u64>) -> u64 {
    if h.len() > 0 {
        h.last()
    } else {
        0
    }
}

/// The newest sample of a window is the one recorded last, whatever the
/// other samples are; an empty window reads 0.
pub proof fn lemma_newest_is_last_recorded(h: Seq<u64>, v: u64)
    ensures
        newest(Seq::<u64>::empty()) == 0,
        h.len() > 0 ==> newest(h) == h[h.len() - 1],
        newest(h.push(v)) == v,
        h.len() > 0 ==> newest(shifted(h, v)) == v,
{
}

/// The newest sample of a window, or 0 for an empty one.
pub fn latest(h: &Vec<u64>) -> (v: u64)
    ensures
        v == newest(h@),
        h@.len() > 0 ==> v == h@[h@.len() - 1],
        h@.len() == 0 ==> v == 0,
{
    if h.len() > 0 {
        h[h.len() - 1]
    } else {
        0
    }
}

/// The largest sample of a window.
pub open spec fn seq_max(h: Seq<u64>) -> u64
    decreases h.len(),
{
    if h.len() == 0 {
        0
    } else if h.len() == 1 || h.last() >= seq_max(h.drop_last()) {
        h.last()
    } else {
        seq_max(h.drop_last())
    }
}

/// The top of a sparkline's scale: the largest sample, and at least 1.
pub open spec fn scale_max(h: Seq<u64>) -> u64 {
    if h.len() > 0 && seq_max(h) > 1 {
        seq_max(h)
    } else {
        1
    }
}

proof fn lemma_seq_max_bounds(h: Seq<u64>)
    ensures
        h.len() > 0 ==> h.contains(seq_max(h)),
        forall|i: int| 0 <= i < h.len() ==> h[i] <= seq_max(h),
    decreases h.len(),
{
    if h.len() > 1 {
        lemma_seq_max_bounds(h.drop_last());
        assert forall|i: int| 0 <= i < h.len() implies h[i] <= seq_max(h) by {
            if i < h.len() - 1 {
                assert(h[i] == h.drop_last()[i]);
            }
        }
        if h.last() < seq_max(h.drop_last()) {
            let j = choose|j: int| 0 <= j < h.drop_last().len() && h.drop_last()[j] == seq_max(h.drop_last());
            assert(h[j] == seq_max(h));
        } else {
            assert(h[h.len() - 1] == seq_max(h));
        }
    } else if h.len() == 1 {
        assert(h[0] == seq_max(h));
    }
}

/// The scale of a sparkline is at least 1 and no sample exceeds it; it is a
/// sample itself unless every sample is 0 or 1.
pub proof fn lemma_scale_max_covers(h: Seq<u64>)
    ensures
        scale_max(h) >= 1,
        forall|i: int| 0 <= i < h.len() ==> h[i] <= scale_max(h),
        scale_max(h) == 1 || h.contains(scale_max(h)),
{
    lemma_seq_max_bounds(h);
}

/// The top of a sparkline's scale: the largest sample, and at least 1 (so an
/// idle graph has a scale).
pub fn sparkline_max(h: &Vec<u64>) -> (m: u64)
    ensures
        m == scale_max(h@),
{
    let mut best: u64 = 0;
    let mut i: usize = 0;
    while i < h.len()
        invariant
            i <= h.len(),
            best == seq_max(h@.subrange(0, i as int)),
        decreases h.len() - i,
    {
        let ghost pre = h@.subrange(0, i as int);
        assert(h@.subrange(0, i + 1).drop_last() =~= pre);
        if i == 0 || h[i] >= best {
            best = h[i];
        }
        i = i + 1;
    }
    assert(h@.subrange(0, h.len() as int) =~= h@);
    if h.len() > 0 && best > 1 {
        best
    } else {
        1
    }
}

} // verus!
