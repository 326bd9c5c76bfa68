//! Validity tracking: a window together with the number of invalid samples in it.
use vstd::prelude::*;
use crate::utils::{is_valid, is_nan_or_inf, lemma_placeholder_invalid};
use crate::rolling::container::{Container, placeholders, advance};

verus! {

/// Number of invalid (NaN or infinite) samples in `s`.
pub open spec fn invalid_count(s: Seq<u64>) -> nat
    decreases s.len(),
{
    if s.len() == 0 {
        0
    } else {
        invalid_count(s.drop_last()) + if is_valid(s.last()) { 0nat } else { 1nat }
    }
}

/// Every sample of `s` is valid: the window is clear.
pub open spec fn all_valid(s: Seq<u64>) -> bool {
    forall|i: int| 0 <= i < s.len() ==> is_valid(#[trigger] s[i])
}

/// There are no more invalid samples than samples.
pub proof fn lemma_invalid_count_bound(s: Seq<u64>)
    ensures
        invalid_count(s) <= s.len(),
    decreases s.len(),
{
    if s.len() > 0 {
        lemma_invalid_count_bound(s.drop_last());
    }
}

/// The count is zero exactly when every sample is valid.
pub proof fn lemma_invalid_count_zero(s: Seq<u64>)
    ensures
        (invalid_count(s) == 0) == all_valid(s),
    decreases s.len(),
{
    if s.len() > 0 {
        lemma_invalid_count_zero(s.drop_last());
        if all_valid(s) {
            assert forall|i: int| 0 <= i < s.drop_last().len() implies is_valid(
                #[trigger] s.drop_last()[i],
            ) by {
                assert(s.drop_last()[i] == s[i]);
            }
        }
        if invalid_count(s) == 0 {
            assert forall|i: int| 0 <= i < s.len() implies is_valid(#[trigger] s[i]) by {
                if i < s.len() - 1 {
                    assert(s[i] == s.drop_last()[i]);
                }
            }
        }
    }
}

/// Counting from the front: the oldest sample's share plus the rest.
pub proof fn lemma_invalid_count_front(s: Seq<u64>)
    requires
        s.len() > 0,
    ensures
        invalid_count(s) == invalid_count(s.drop_first()) + if is_valid(s[0]) {
            0nat
        } else {
            1nat
        },
    decreases s.len(),
{
    if s.len() > 1 {
        lemma_invalid_count_front(s.drop_last());
        assert(s.drop_last().drop_first() =~= s.drop_first().drop_last());
    } else {
        assert(s.drop_first() =~= Seq::<u64>::empty());
        assert(s.drop_last() =~= Seq::<u64>::empty());
    }
}

/// The count after one update.
pub proof fn lemma_invalid_count_advance(w: Seq<u64>, v: u64)
    requires
        w.len() > 0,
    ensures
        invalid_count(advance(w, v)) + (if is_valid(w[0]) { 0nat } else { 1nat })
            == invalid_count(w) + (if is_valid(v) { 0nat } else { 1nat }),
{
    lemma_invalid_count_front(w);
    assert(advance(w, v).drop_last() =~= w.drop_first());
}

/// A window of placeholders is invalid throughout.
pub proof fn lemma_invalid_count_placeholders(n: nat)
    ensures
        invalid_count(placeholders(n)) == n,
    decreases n,
{
    lemma_placeholder_invalid();
    if n > 0 {
        lemma_invalid_count_placeholders((n - 1) as nat);
        assert(placeholders(n).drop_last() =~= placeholders((n - 1) as nat));
    }
}

/// A window of the last `n` samples that also counts the invalid samples in it.
///
/// Aggregates built on it report a value only while the window is clear, that is
/// while every sample in the window is valid.
pub struct GuardedWindow {
    container: Container,
    nan_count: usize,
}

impl View for GuardedWindow {
    type V = Seq<u64>;

    closed spec fn view(&self) -> Seq<u64> {
        self.container@
    }
}

impl GuardedWindow {
    pub closed spec fn wf(&self) -> bool {
        &&& self.container.wf()
        &&& self.nan_count == invalid_count(self.container@)
    }

    /// A well-formed window has at least one slot.
    pub proof fn lemma_len(&self)
        requires
            self.wf(),
        ensures
            1 <= self@.len() <= usize::MAX,
    {
        self.container.lemma_len();
    }

    /// A window of `n` slots, all holding the NaN placeholder, so the window is not clear.
    pub fn new(n: usize) -> (r: Self)
        requires
            n >= 1,
        ensures
            r.wf(),
            r@ == placeholders(n as nat),
    {
        proof {
            lemma_invalid_count_placeholders(n as nat);
        }
        GuardedWindow { container: Container::new(n), nan_count: n }
    }

    /// Admits `new_val` and evicts the oldest sample, which is returned.
    pub fn update(&mut self, new_val: u64) -> (evicted: u64)
        requires
            old(self).wf(),
        ensures
            final(self).wf(),
            final(self)@ == advance(old(self)@, new_val),
            old(self)@.len() > 0,
            evicted == old(self)@[0],
    {
        proof {
            self.container.lemma_len();
            lemma_invalid_count_advance(self.container@, new_val);
            lemma_invalid_count_bound(advance(self.container@, new_val));
        }
        let old_val = self.container.head();
        self.container.update(new_val);
        let enters_invalid = is_nan_or_inf(new_val);
        let leaves_invalid = is_nan_or_inf(old_val);
        if enters_invalid && !leaves_invalid {
            self.nan_count = self.nan_count + 1;
        } else if !enters_invalid && leaves_invalid {
            self.nan_count = self.nan_count - 1;
        }
        old_val
    }

    /// Whether every sample in the window is valid.
    pub fn is_clear(&self) -> (r: bool)
        requires
            self.wf(),
        ensures
            r == all_valid(self@),
    {
        proof {
            lemma_invalid_count_zero(self@);
        }
        self.nan_count == 0
    }

    /// The number of invalid samples in the window.
    pub fn invalid(&self) -> (r: usize)
        requires
            self.wf(),
        ensures
            r == invalid_count(self@),
    {
        self.nan_count
    }

    /// The underlying buffer.
    pub fn container(&self) -> (r: &Container)
        requires
            self.wf(),
        ensures
            r.wf(),
            r@ == self@,
    {
        &self.container
    }
}

} // verus!
