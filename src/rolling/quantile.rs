//! Sliding order statistics: the samples of the window kept in ascending order.
use vstd::prelude::*;
use vstd::multiset::Multiset;
use crate::utils::{is_valid, order_key, key_of, is_nan_or_inf, lemma_placeholder_invalid};
use crate::rolling::container::{placeholders, advance};
use crate::rolling::validity::{GuardedWindow, all_valid, invalid_count, lemma_invalid_count_zero};

verus! {

broadcast use vstd::seq_lib::group_to_multiset_ensures, vstd::multiset::group_multiset_axioms;

/// The valid samples of `s`, as a multiset.
pub open spec fn valid_bag(s: Seq<u64>) -> Multiset<u64>
    decreases s.len(),
{
    if s.len() == 0 {
        Multiset::empty()
    } else if is_valid(s.last()) {
        valid_bag(s.drop_last()).insert(s.last())
    } else {
        valid_bag(s.drop_last())
    }
}

/// `s` is in ascending order of value.
pub open spec fn ascending(s: Seq<u64>) -> bool {
    forall|i: int, j: int| 0 <= i <= j < s.len() ==> order_key(s[i]) <= order_key(s[j])
}

/// `s` holds exactly the valid samples of the window `w`, in ascending order.
pub open spec fn sorted_window(s: Seq<u64>, w: Seq<u64>) -> bool {
    &&& ascending(s)
    &&& s.to_multiset() == valid_bag(w)
}

proof fn lemma_valid_bag_front(s: Seq<u64>)
    requires
        s.len() > 0,
    ensures
        valid_bag(s) == if is_valid(s[0]) {
            valid_bag(s.drop_first()).insert(s[0])
        } else {
            valid_bag(s.drop_first())
        },
    decreases s.len(),
{
    if s.len() > 1 {
        lemma_valid_bag_front(s.drop_last());
        assert(s.drop_last().drop_first() =~= s.drop_first().drop_last());
        assert(valid_bag(s) =~= if is_valid(s[0]) {
            valid_bag(s.drop_first()).insert(s[0])
        } else {
            valid_bag(s.drop_first())
        });
    } else {
        assert(s.drop_first() =~= Seq::<u64>::empty());
        assert(s.drop_last() =~= Seq::<u64>::empty());
    }
}

proof fn lemma_valid_bag_len(s: Seq<u64>)
    ensures
        valid_bag(s).len() + invalid_count(s) == s.len(),
    decreases s.len(),
{
    if s.len() > 0 {
        lemma_valid_bag_len(s.drop_last());
    }
}

proof fn lemma_valid_bag_placeholders(n: nat)
    ensures
        valid_bag(placeholders(n)) == Multiset::<u64>::empty(),
    decreases n,
{
    lemma_placeholder_invalid();
    if n > 0 {
        lemma_valid_bag_placeholders((n - 1) as nat);
        assert(placeholders(n).drop_last() =~= placeholders((n - 1) as nat));
    }
}

/// Two ascending arrangements of one multiset of samples agree, position by
/// position, on the value held there: the rank of a value does not depend on
/// how repeated values are laid out, so order statistics are well defined.
pub proof fn lemma_order_statistics_unique(s1: Seq<u64>, s2: Seq<u64>)
    requires
        ascending(s1),
        ascending(s2),
        s1.to_multiset() == s2.to_multiset(),
    ensures
        s1.len() == s2.len(),
        forall|i: int| 0 <= i < s1.len() ==> order_key(#[trigger] s1[i]) == order_key(s2[i]),
    decreases s1.len(),
{
    vstd::seq_lib::to_multiset_len(s1);
    vstd::seq_lib::to_multiset_len(s2);
    if s1.len() > 0 {
        let a = s1.last();
        let b = s2.last();
        assert(s1.contains(a)) by {
            assert(s1[s1.len() - 1] == a);
        }
        assert(s2.contains(b)) by {
            assert(s2[s2.len() - 1] == b);
        }
        vstd::seq_lib::to_multiset_contains(s1, a);
        vstd::seq_lib::to_multiset_contains(s2, a);
        vstd::seq_lib::to_multiset_contains(s1, b);
        vstd::seq_lib::to_multiset_contains(s2, b);
        assert(s2.contains(a));
        let ja = choose|j: int| 0 <= j < s2.len() && s2[j] == a;
        assert(s1.contains(b));
        let jb = choose|j: int| 0 <= j < s1.len() && s1[j] == b;
        assert(order_key(a) == order_key(b)) by {
            assert(order_key(s2[ja]) <= order_key(b));
            assert(order_key(s1[jb]) <= order_key(a));
        }
        let t1 = s1.drop_last();
        let t2 = s2.remove(ja);
        assert(s1 =~= t1.push(a));
        assert(t1.to_multiset() == s1.to_multiset().remove(a));
        assert(t2.to_multiset() == s2.to_multiset().remove(a));
        assert(ascending(t2));
        lemma_order_statistics_unique(t1, t2);
        assert forall|i: int| 0 <= i < s1.len() implies order_key(#[trigger] s1[i]) == order_key(
            s2[i],
        ) by {
            if i == s1.len() - 1 {
            } else if i < ja {
                assert(t1[i] == s1[i]);
                assert(t2[i] == s2[i]);
            } else {
                assert(t1[i] == s1[i]);
                assert(t2[i] == s2[i + 1]);
                assert(order_key(s2[ja]) <= order_key(s2[i]) <= order_key(s2[i + 1]) <= order_key(
                    b,
                ));
            }
        }
    }
}

/// The first position of the ascending `s` whose value is not below key `k`.
fn lower_bound(s: &Vec<u64>, k: u64) -> (r: usize)
    requires
        ascending(s@),
    ensures
        r <= s@.len(),
        forall|i: int| 0 <= i < r ==> order_key(#[trigger] s@[i]) < k,
        forall|i: int| r <= i < s@.len() ==> k <= order_key(#[trigger] s@[i]),
{
    let mut lo: usize = 0;
    let mut hi: usize = s.len();
    while lo < hi
        invariant
            ascending(s@),
            lo <= hi <= s@.len(),
            forall|i: int| 0 <= i < lo ==> order_key(#[trigger] s@[i]) < k,
            forall|i: int| hi <= i < s@.len() ==> k <= order_key(#[trigger] s@[i]),
        decreases hi - lo,
    {
        let mid = lo + (hi - lo) / 2;
        if key_of(s[mid]) < k {
            lo = mid + 1;
        } else {
            hi = mid;
        }
    }
    lo
}

/// Rolling order statistics over the last `n` samples.
///
/// Beside the window it keeps the window's valid samples in ascending order
/// (a sorted multiset with repeats side by side), updated by one insertion and
/// one removal per sample.
pub struct Quantiler {
    window: GuardedWindow,
    dataset: Vec<u64>,
}

impl View for Quantiler {
    type V = Seq<u64>;

    closed spec fn view(&self) -> Seq<u64> {
        self.window@
    }
}

impl Quantiler {
    pub closed spec fn wf(&self) -> bool {
        &&& self.window.wf()
        &&& sorted_window(self.dataset@, self.window@)
    }

    /// The window's valid samples in ascending order.
    pub closed spec fn ordered(&self) -> Seq<u64> {
        self.dataset@
    }

    pub fn new(n: usize) -> (r: Self)
        requires
            n >= 1,
        ensures
            r.wf(),
            r@ == placeholders(n as nat),
            r.ordered() == Seq::<u64>::empty(),
    {
        proof {
            lemma_valid_bag_placeholders(n as nat);
        }
        let r = Quantiler { window: GuardedWindow::new(n), dataset: Vec::new() };
        assert(r.dataset@.to_multiset() =~= Multiset::<u64>::empty());
        r
    }

    /// Admits `new_val`. While the window is clear, returns the samples of rank
    /// `rank` and `rank + 1` in ascending order (the second is the first again
    /// when `rank` is the last rank), the two values between which a quantile at
    /// fractional rank `rank + f`, `0 <= f < 1`, is interpolated; otherwise `None`.
    pub fn update(&mut self, new_val: u64, rank: usize) -> (r: Option<(u64, u64)>)
        requires
            old(self).wf(),
            rank < old(self)@.len(),
        ensures
            final(self).wf(),
            final(self)@ == advance(old(self)@, new_val),
            sorted_window(final(self).ordered(), final(self)@),
            r is Some <==> all_valid(final(self)@),
            all_valid(final(self)@) ==> final(self).ordered().len() == final(self)@.len(),
            r matches Some((lo, hi)) ==> {
                &&& lo == final(self).ordered()[rank as int]
                &&& hi == if rank + 1 < final(self)@.len() {
                    final(self).ordered()[rank + 1]
                } else {
                    lo
                }
            },
    {
        let ghost w0 = self.window@;
        proof {
            self.window.lemma_len();
            lemma_valid_bag_front(w0);
            lemma_valid_bag_len(w0);
            assert(advance(w0, new_val).drop_last() =~= w0.drop_first());
        }
        let old_val = self.window.update(new_val);
        if !is_nan_or_inf(old_val) {
            let ghost s = self.dataset@;
            assert(s.to_multiset().count(old_val) > 0);
            let ghost at = choose|i: int| 0 <= i < s.len() && s[i] == old_val;
            let k = key_of(old_val);
            let mut j = lower_bound(&self.dataset, k);
            assert(at >= j);
            while self.dataset[j] != old_val
                invariant
                    self.dataset@ == s,
                    j <= at < s.len() <= usize::MAX,
                    s[at] == old_val,
                decreases at - j,
            {
                j = j + 1;
            }
            self.dataset.remove(j);
            assert(ascending(self.dataset@));
        }
        if !is_nan_or_inf(new_val) {
            let pos = lower_bound(&self.dataset, key_of(new_val));
            self.dataset.insert(pos, new_val);
            assert(ascending(self.dataset@));
        }
        assert(self.dataset@.to_multiset() =~= valid_bag(self.window@));
        proof {
            lemma_valid_bag_len(self.window@);
            lemma_invalid_count_zero(self.window@);
        }
        if !self.window.is_clear() {
            return None;
        }
        let n = self.dataset.len();
        let lo = self.dataset[rank];
        let hi = if rank + 1 < n {
            self.dataset[rank + 1]
        } else {
            lo
        };
        Some((lo, hi))
    }
}

} // verus!
