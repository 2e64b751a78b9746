//! Bounded buffers that evict their oldest entries by count and by size.

use vstd::prelude::*;

verus! {

/// `a + b`, capped at `usize::MAX`.
pub open spec fn sat_add_usize(a: nat, b: nat) -> nat {
    if a + b > usize::MAX {
        usize::MAX as nat
    } else {
        a + b
    }
}

/// `a - b`, or 0.
pub open spec fn sat_sub_nat(a: nat, b: nat) -> nat {
    if a >= b {
        (a - b) as nat
    } else {
        0
    }
}

/// Drops entries from the front while there are more than `max_len` of them
/// or the byte count `b` exceeds `max_b`; each dropped entry takes its size off `b`.
pub open spec fn evict<T>(q: Seq<T>, b: nat, size: spec_fn(T) -> nat, max_len: nat, max_b: nat) -> (Seq<T>, nat)
    decreases q.len(),
{
    if (q.len() > max_len || b > max_b) && q.len() > 0 {
        evict(q.drop_first(), sat_sub_nat(b, size(q[0])), size, max_len, max_b)
    } else {
        (q, b)
    }
}

/// Total size of the entries.
pub open spec fn total_size<T>(q: Seq<T>, size: spec_fn(T) -> nat) -> nat
    decreases q.len(),
{
    if q.len() == 0 {
        0
    } else {
        size(q[0]) + total_size(q.drop_first(), size)
    }
}

/// Total size over an appended entry.
pub proof fn lemma_total_size_push<T>(q: Seq<T>, x: T, size: spec_fn(T) -> nat)
    ensures
        total_size(q.push(x), size) == total_size(q, size) + size(x),
    decreases q.len(),
{
    if q.len() > 0 {
        lemma_total_size_push(q.drop_first(), x, size);
        assert(q.push(x).drop_first() =~= q.drop_first().push(x));
        assert(q.push(x)[0] == q[0]);
    } else {
        assert(q.push(x).drop_first() =~= Seq::<T>::empty());
        assert(q.push(x)[0] == x);
        assert(total_size(Seq::<T>::empty(), size) == 0);
    }
}

/// When the byte count is the exact total, eviction keeps it exact and
/// leaves at most `max_len` entries and at most `max_b` bytes; what stays is
/// a suffix of what was there.
pub proof fn lemma_evict_bounds<T>(q: Seq<T>, b: nat, size: spec_fn(T) -> nat, max_len: nat, max_b: nat)
    requires
        b == total_size(q, size),
    ensures
        ({
            let (r, rb) = evict(q, b, size, max_len, max_b);
            &&& rb == total_size(r, size)
            &&& r.len() <= max_len
            &&& rb <= max_b
            &&& r.len() <= q.len()
            &&& r == q.skip(q.len() - r.len())
        }),
    decreases q.len(),
{
    if (q.len() > max_len || b > max_b) && q.len() > 0 {
        lemma_evict_bounds(q.drop_first(), sat_sub_nat(b, size(q[0])), size, max_len, max_b);
        let (r, rb) = evict(q, b, size, max_len, max_b);
        assert(q.drop_first().skip(q.drop_first().len() - r.len()) =~= q.skip(q.len() - r.len()));
    } else {
        assert(q.skip(0) =~= q);
        if q.len() == 0 {
        }
    }
}

} // verus!
