//! The window as a function of the whole stream, and what follows from it.
use vstd::prelude::*;
use crate::utils::{is_valid, NAN_BITS, lemma_placeholder_invalid};
use crate::rolling::container::{placeholders, advance};
use crate::rolling::validity::all_valid;

verus! {

/// The window of size `n` after the samples `s` have been fed, in order, to a
/// new aggregate: the last `n` samples, preceded by placeholders while fewer
/// than `n` have arrived.
pub open spec fn window_of(n: nat, s: Seq<u64>) -> Seq<u64> {
    Seq::new(
        n,
        |i: int|
            if i + s.len() < n {
                NAN_BITS
            } else {
                s[s.len() - n + i]
            },
    )
}

/// A new aggregate's window is the window of the empty stream.
pub proof fn lemma_window_of_empty(n: nat)
    ensures
        window_of(n, Seq::<u64>::empty()) == placeholders(n),
{
    assert(window_of(n, Seq::<u64>::empty()) =~= placeholders(n));
}

/// One update moves the window of a stream to the window of the stream
/// extended by the new sample; so an aggregate fed `s` has the window `window_of(n, s)`.
pub proof fn lemma_window_of_push(n: nat, s: Seq<u64>, v: u64)
    requires
        n >= 1,
    ensures
        window_of(n, s.push(v)) == advance(window_of(n, s), v),
{
    assert(window_of(n, s.push(v)) =~= advance(window_of(n, s), v));
}

/// Once `n` samples have arrived, the head of the window is the sample that
/// came `n - 1` updates before the tail, and the tail is the newest sample: the
/// two operands of a window-edge difference.
pub proof fn lemma_window_edges(n: nat, s: Seq<u64>)
    requires
        n >= 1,
        s.len() >= n,
    ensures
        window_of(n, s)[0] == s[s.len() - n],
        window_of(n, s)[n - 1] == s.last(),
        window_of(n, s) == s.subrange(s.len() - n, s.len() as int),
{
    assert(window_of(n, s) =~= s.subrange(s.len() - n, s.len() as int));
}

/// Before `n` samples have arrived the window still holds a placeholder, so
/// every windowed aggregate reports the invalid result.
pub proof fn lemma_insufficient_history(n: nat, s: Seq<u64>)
    requires
        s.len() < n,
    ensures
        !all_valid(window_of(n, s)),
{
    lemma_placeholder_invalid();
    assert(!is_valid(window_of(n, s)[0]));
}

/// A single invalid sample at position `p` of an otherwise valid stream makes
/// the results after samples `p + 1` through `p + n` invalid (exactly `n`
/// consecutive results); every later window is valid again and is exactly the
/// last `n` samples of the stream, as if the invalid one had never been seen.
pub proof fn lemma_single_invalid_sample(n: nat, s: Seq<u64>, p: int)
    requires
        n >= 1,
        0 <= p < s.len(),
        !is_valid(s[p]),
        forall|q: int| 0 <= q < s.len() && q != p ==> is_valid(#[trigger] s[q]),
    ensures
        forall|t: int|
            p < t <= s.len() && t <= p + n ==> !all_valid(#[trigger] window_of(n, s.take(t))),
        forall|t: int|
            p + n < t <= s.len() ==> all_valid(#[trigger] window_of(n, s.take(t))) && window_of(
                n,
                s.take(t),
            ) == s.subrange(t - n, t),
{
    assert forall|t: int| p < t <= s.len() && t <= p + n implies !all_valid(
        #[trigger] window_of(n, s.take(t)),
    ) by {
        let w = window_of(n, s.take(t));
        if t >= n {
            assert(w[p - (t - n)] == s[p]);
        } else {
            lemma_insufficient_history(n, s.take(t));
        }
    }
    assert forall|t: int| p + n < t <= s.len() implies all_valid(
        #[trigger] window_of(n, s.take(t)),
    ) && window_of(n, s.take(t)) == s.subrange(t - n, t) by {
        let w = window_of(n, s.take(t));
        assert(w =~= s.subrange(t - n, t));
        assert forall|i: int| 0 <= i < w.len() implies is_valid(#[trigger] w[i]) by {
            assert(w[i] == s[t - n + i]);
        }
    }
}

} // verus!
