//! Fixed-capacity circular buffer holding the last `n` samples.
use vstd::prelude::*;
use crate::utils::NAN_BITS;

verus! {

/// The window of `n` placeholders that a new buffer starts with.
pub open spec fn placeholders(n: nat) -> Seq<u64> {
    Seq::new(n, |i: int| NAN_BITS)
}

/// The window after one update: the oldest sample leaves, `v` enters as the newest.
pub open spec fn advance(w: Seq<u64>, v: u64) -> Seq<u64> {
    w.drop_first().push(v)
}

/// Circular storage of the last `n` samples, `n >= 1`, fixed at construction.
///
/// Its view is the window in chronological order: position 0 is the head (the
/// oldest sample, evicted by the next update), position `n - 1` the tail (the
/// sample just written).
pub struct Container {
    buf: Vec<u64>,
    head_idx: usize,
}

impl View for Container {
    type V = Seq<u64>;

    closed spec fn view(&self) -> Seq<u64> {
        Seq::new(
            self.buf@.len(),
            |i: int|
                if self.head_idx + i < self.buf@.len() {
                    self.buf@[self.head_idx + i]
                } else {
                    self.buf@[self.head_idx + i - self.buf@.len()]
                },
        )
    }
}

impl Container {
    pub closed spec fn wf(&self) -> bool {
        &&& 0 < self.buf@.len() <= usize::MAX
        &&& self.head_idx < self.buf@.len()
    }

    /// A well-formed buffer has at least one slot, and no more than memory holds.
    pub proof fn lemma_len(&self)
        requires
            self.wf(),
        ensures
            1 <= self@.len() <= usize::MAX,
    {
    }

    /// A buffer of `n` slots, each holding the NaN placeholder.
    pub fn new(n: usize) -> (r: Self)
        requires
            n >= 1,
        ensures
            r.wf(),
            r@ == placeholders(n as nat),
    {
        let mut buf: Vec<u64> = Vec::new();
        let mut i: usize = 0;
        while i < n
            invariant
                i <= n,
                buf@ == Seq::new(i as nat, |j: int| NAN_BITS),
            decreases n - i,
        {
            buf.push(NAN_BITS);
            i = i + 1;
        }
        let r = Container { buf, head_idx: 0 };
        assert(r@ =~= placeholders(n as nat));
        r
    }

    /// Writes `new_val` over the oldest slot, which becomes the newest.
    pub fn update(&mut self, new_val: u64)
        requires
            old(self).wf(),
        ensures
            final(self).wf(),
            final(self)@ == advance(old(self)@, new_val),
    {
        let n = self.buf.len();
        let h = self.head_idx;
        self.buf.set(h, new_val);
        self.head_idx = if h + 1 == n { 0 } else { h + 1 };
        assert(self@ =~= advance(old(self)@, new_val));
    }

    /// The sample at logical position `idx` taken modulo the capacity
    /// (0 is the head, `len() - 1` the tail).
    pub fn get(&self, idx: usize) -> (r: u64)
        requires
            self.wf(),
        ensures
            r == self@[idx as int % self@.len() as int],
    {
        self.at(idx % self.buf.len())
    }

    /// The sample at logical position `idx`, which is within the window.
    pub(crate) fn at(&self, idx: usize) -> (r: u64)
        requires
            self.wf(),
            idx < self@.len(),
        ensures
            r == self@[idx as int],
    {
        let n = self.buf.len();
        let h = self.head_idx;
        if idx < n - h {
            self.buf[h + idx]
        } else {
            self.buf[idx - (n - h)]
        }
    }

    /// The oldest sample, the one that the next update evicts.
    pub fn head(&self) -> (r: u64)
        requires
            self.wf(),
        ensures
            r == self@[0],
    {
        self.buf[self.head_idx]
    }

    /// The newest sample, the one that the last update wrote.
    pub fn tail(&self) -> (r: u64)
        requires
            self.wf(),
        ensures
            r == self@[self@.len() - 1],
    {
        let h = self.head_idx;
        if h == 0 {
            self.buf[self.buf.len() - 1]
        } else {
            self.buf[h - 1]
        }
    }

    /// The capacity `n`.
    pub fn len(&self) -> (r: usize)
        requires
            self.wf(),
        ensures
            r as int == self@.len(),
            r >= 1,
    {
        self.buf.len()
    }

    /// The window's samples from oldest to newest.
    pub fn values(&self) -> (r: Vec<u64>)
        requires
            self.wf(),
        ensures
            r@ == self@,
    {
        let n = self.buf.len();
        let mut out: Vec<u64> = Vec::new();
        let mut i: usize = 0;
        while i < n
            invariant
                n == self@.len(),
                self.wf(),
                i <= n,
                out@ == self@.take(i as int),
            decreases n - i,
        {
            out.push(self.at(i));
            assert(out@ =~= self@.take(i + 1));
            i = i + 1;
        }
        assert(out@ =~= self@);
        out
    }
}

} // verus!
