//! Windowed extrema, with or without their position in the window.
use vstd::prelude::*;
use crate::utils::{order_key, key_of};
use crate::rolling::container::{Container, placeholders, advance};
use crate::rolling::validity::{GuardedWindow, all_valid};

verus! {

/// `i` is the position of the largest sample of `s`, and no earlier position
/// holds one as large: ties go to the oldest occurrence.
pub open spec fn is_first_max(s: Seq<u64>, i: int) -> bool {
    &&& 0 <= i < s.len()
    &&& forall|j: int| 0 <= j < s.len() ==> order_key(#[trigger] s[j]) <= order_key(s[i])
    &&& forall|j: int| 0 <= j < i ==> order_key(#[trigger] s[j]) < order_key(s[i])
}

/// `i` is the position of the smallest sample of `s`, and no earlier position
/// holds one as small.
pub open spec fn is_first_min(s: Seq<u64>, i: int) -> bool {
    &&& 0 <= i < s.len()
    &&& forall|j: int| 0 <= j < s.len() ==> order_key(s[i]) <= order_key(#[trigger] s[j])
    &&& forall|j: int| 0 <= j < i ==> order_key(s[i]) < order_key(#[trigger] s[j])
}

/// One pass over the window, from oldest to newest, returning the positions
/// of the first minimum and of the first maximum.
fn scan_extrema(c: &Container) -> (r: (usize, usize))
    requires
        c.wf(),
    ensures
        is_first_min(c@, r.0 as int),
        is_first_max(c@, r.1 as int),
{
    proof {
        c.lemma_len();
    }
    let n = c.len();
    let first = c.at(0);
    let mut lo_i: usize = 0;
    let mut lo_k = key_of(first);
    let mut hi_i: usize = 0;
    let mut hi_k = lo_k;
    let mut i: usize = 1;
    while i < n
        invariant
            c.wf(),
            n == c@.len(),
            1 <= i <= n,
            lo_i < i,
            hi_i < i,
            lo_k == order_key(c@[lo_i as int]),
            hi_k == order_key(c@[hi_i as int]),
            forall|j: int| 0 <= j < i ==> lo_k <= order_key(#[trigger] c@[j]),
            forall|j: int| 0 <= j < lo_i ==> lo_k < order_key(#[trigger] c@[j]),
            forall|j: int| 0 <= j < i ==> order_key(#[trigger] c@[j]) <= hi_k,
            forall|j: int| 0 <= j < hi_i ==> order_key(#[trigger] c@[j]) < hi_k,
        decreases n - i,
    {
        let k = key_of(c.at(i));
        if k < lo_k {
            lo_i = i;
            lo_k = k;
        }
        if k > hi_k {
            hi_i = i;
            hi_k = k;
        }
        i = i + 1;
    }
    (lo_i, hi_i)
}

/// Rolling maximum over the last `n` samples.
pub struct Maxer {
    window: GuardedWindow,
}

impl View for Maxer {
    type V = Seq<u64>;

    closed spec fn view(&self) -> Seq<u64> {
        self.window@
    }
}

impl Maxer {
    pub closed spec fn wf(&self) -> bool {
        self.window.wf()
    }

    pub fn new(n: usize) -> (r: Self)
        requires
            n >= 1,
        ensures
            r.wf(),
            r@ == placeholders(n as nat),
    {
        Maxer { window: GuardedWindow::new(n) }
    }

    /// Admits `new_val`; returns the window's maximum, or `None` while the
    /// window holds an invalid sample.
    pub fn update(&mut self, new_val: u64) -> (r: Option<u64>)
        requires
            old(self).wf(),
        ensures
            final(self).wf(),
            final(self)@ == advance(old(self)@, new_val),
            r is Some <==> all_valid(final(self)@),
            r matches Some(m) ==> exists|i: int|
                is_first_max(final(self)@, i) && m == #[trigger] final(self)@[i],
    {
        self.window.update(new_val);
        if !self.window.is_clear() {
            return None;
        }
        let c = self.window.container();
        let (_, hi) = scan_extrema(c);
        Some(c.at(hi))
    }
}


/// Rolling minimum over the last `n` samples.
pub struct Miner {
    window: GuardedWindow,
}

impl View for Miner {
    type V = Seq<u64>;

    closed spec fn view(&self) -> Seq<u64> {
        self.window@
    }
}

impl Miner {
    pub closed spec fn wf(&self) -> bool {
        self.window.wf()
    }

    pub fn new(n: usize) -> (r: Self)
        requires
            n >= 1,
        ensures
            r.wf(),
            r@ == placeholders(n as nat),
    {
        Miner { window: GuardedWindow::new(n) }
    }

    /// Admits `new_val`; returns the window's minimum, or `None` while the
    /// window holds an invalid sample.
    pub fn update(&mut self, new_val: u64) -> (r: Option<u64>)
        requires
            old(self).wf(),
        ensures
            final(self).wf(),
            final(self)@ == advance(old(self)@, new_val),
            r is Some <==> all_valid(final(self)@),
            r matches Some(m) ==> exists|i: int|
                is_first_min(final(self)@, i) && m == #[trigger] final(self)@[i],
    {
        self.window.update(new_val);
        if !self.window.is_clear() {
            return None;
        }
        let c = self.window.container();
        let (lo, _) = scan_extrema(c);
        Some(c.at(lo))
    }
}

/// Rolling minimum and maximum over the last `n` samples, found in one pass.
pub struct MinMaxer {
    window: GuardedWindow,
}

impl View for MinMaxer {
    type V = Seq<u64>;

    closed spec fn view(&self) -> Seq<u64> {
        self.window@
    }
}

impl MinMaxer {
    pub closed spec fn wf(&self) -> bool {
        self.window.wf()
    }

    pub fn new(n: usize) -> (r: Self)
        requires
            n >= 1,
        ensures
            r.wf(),
            r@ == placeholders(n as nat),
    {
        MinMaxer { window: GuardedWindow::new(n) }
    }

    /// Admits `new_val`; returns `(min, max)` of the window, or `None` while
    /// the window holds an invalid sample.
    pub fn update(&mut self, new_val: u64) -> (r: Option<(u64, u64)>)
        requires
            old(self).wf(),
        ensures
            final(self).wf(),
            final(self)@ == advance(old(self)@, new_val),
            r is Some <==> all_valid(final(self)@),
            r matches Some((lo, hi)) ==> (exists|i: int|
                is_first_min(final(self)@, i) && lo == #[trigger] final(self)@[i]) && (exists|
                i: int|
                is_first_max(final(self)@, i) && hi == #[trigger] final(self)@[i]),
    {
        self.window.update(new_val);
        if !self.window.is_clear() {
            return None;
        }
        let c = self.window.container();
        let (lo, hi) = scan_extrema(c);
        Some((c.at(lo), c.at(hi)))
    }
}

/// Rolling maximum over the last `n` samples, with its position in the window.
pub struct MaxIndexer {
    window: GuardedWindow,
}

impl View for MaxIndexer {
    type V = Seq<u64>;

    closed spec fn view(&self) -> Seq<u64> {
        self.window@
    }
}

impl MaxIndexer {
    pub closed spec fn wf(&self) -> bool {
        self.window.wf()
    }

    pub fn new(n: usize) -> (r: Self)
        requires
            n >= 1,
        ensures
            r.wf(),
            r@ == placeholders(n as nat),
    {
        MaxIndexer { window: GuardedWindow::new(n) }
    }

    /// Admits `new_val`; returns the position of the window's maximum
    /// (0 is the oldest sample; ties go to the oldest) and its value, or `None`
    /// while the window holds an invalid sample.
    pub fn update(&mut self, new_val: u64) -> (r: Option<(usize, u64)>)
        requires
            old(self).wf(),
        ensures
            final(self).wf(),
            final(self)@ == advance(old(self)@, new_val),
            r is Some <==> all_valid(final(self)@),
            r matches Some((i, m)) ==> is_first_max(final(self)@, i as int) 
                && m == final(self)@[i as int],
    {
        self.window.update(new_val);
        if !self.window.is_clear() {
            return None;
        }
        let c = self.window.container();
        let (_, hi) = scan_extrema(c);
        Some((hi, c.at(hi)))
    }
}

/// Rolling minimum over the last `n` samples, with its position in the window.
pub struct MinIndexer {
    window: GuardedWindow,
}

impl View for MinIndexer {
    type V = Seq<u64>;

    closed spec fn view(&self) -> Seq<u64> {
        self.window@
    }
}

impl MinIndexer {
    pub closed spec fn wf(&self) -> bool {
        self.window.wf()
    }

    pub fn new(n: usize) -> (r: Self)
        requires
            n >= 1,
        ensures
            r.wf(),
            r@ == placeholders(n as nat),
    {
        MinIndexer { window: GuardedWindow::new(n) }
    }

    /// Admits `new_val`; returns the position of the window's minimum
    /// (0 is the oldest sample; ties go to the oldest) and its value, or `None`
    /// while the window holds an invalid sample.
    pub fn update(&mut self, new_val: u64) -> (r: Option<(usize, u64)>)
        requires
            old(self).wf(),
        ensures
            final(self).wf(),
            final(self)@ == advance(old(self)@, new_val),
            r is Some <==> all_valid(final(self)@),
            r matches Some((i, m)) ==> is_first_min(final(self)@, i as int) 
                && m == final(self)@[i as int],
    {
        self.window.update(new_val);
        if !self.window.is_clear() {
            return None;
        }
        let c = self.window.container();
        let (lo, _) = scan_extrema(c);
        Some((lo, c.at(lo)))
    }
}

/// Rolling minimum and maximum over the last `n` samples, with their positions.
pub struct MinMaxIndexer {
    window: GuardedWindow,
}

impl View for MinMaxIndexer {
    type V = Seq<u64>;

    closed spec fn view(&self) -> Seq<u64> {
        self.window@
    }
}

impl MinMaxIndexer {
    pub closed spec fn wf(&self) -> bool {
        self.window.wf()
    }

    pub fn new(n: usize) -> (r: Self)
        requires
            n >= 1,
        ensures
            r.wf(),
            r@ == placeholders(n as nat),
    {
        MinMaxIndexer { window: GuardedWindow::new(n) }
    }

    /// Admits `new_val`; returns `(min position, min, max position, max)`,
    /// positions counted from the oldest sample with ties to the oldest, or
    /// `None` while the window holds an invalid sample.
    pub fn update(&mut self, new_val: u64) -> (r: Option<(usize, u64, usize, u64)>)
        requires
            old(self).wf(),
        ensures
            final(self).wf(),
            final(self)@ == advance(old(self)@, new_val),
            r is Some <==> all_valid(final(self)@),
            r matches Some((i, lo, j, hi)) ==> {
                &&& is_first_min(final(self)@, i as int)
                &&& lo == final(self)@[i as int]
                &&& is_first_max(final(self)@, j as int)
                &&& hi == final(self)@[j as int]
            },
    {
        self.window.update(new_val);
        if !self.window.is_clear() {
            return None;
        }
        let c = self.window.container();
        let (lo, hi) = scan_extrema(c);
        Some((lo, c.at(lo), hi, c.at(hi)))
    }
}

} // verus!
