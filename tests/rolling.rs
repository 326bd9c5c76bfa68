use ta::rolling::container::Container;
use ta::rolling::validity::GuardedWindow;
use ta::rolling::minmax::{MaxIndexer, Maxer, MinIndexer, MinMaxIndexer, MinMaxer, Miner};
use ta::rolling::quantile::Quantiler;
use ta::utils::NAN_BITS;

fn b(x: f64) -> u64 {
    x.to_bits()
}

fn f(x: u64) -> f64 {
    f64::from_bits(x)
}

#[test]
fn container_starts_with_placeholders() {
    let c = Container::new(3);
    assert_eq!(c.len(), 3);
    assert_eq!(c.values(), vec![NAN_BITS, NAN_BITS, NAN_BITS]);
    assert!(f(c.head()).is_nan());
    assert!(f(c.tail()).is_nan());
}

#[test]
fn container_keeps_last_n_in_order() {
    let mut c = Container::new(3);
    for x in [1.0, 2.0, 3.0, 4.0, 5.0] {
        c.update(b(x));
    }
    assert_eq!(c.values(), vec![b(3.0), b(4.0), b(5.0)]);
    assert_eq!(f(c.head()), 3.0);
    assert_eq!(f(c.tail()), 5.0);
    assert_eq!(f(c.get(0)), 3.0);
    assert_eq!(f(c.get(2)), 5.0);
    assert_eq!(f(c.get(4)), 4.0);
    assert_eq!(f(c.get(usize::MAX)), 3.0);
}

#[test]
fn container_of_one_slot() {
    let mut c = Container::new(1);
    c.update(b(7.0));
    assert_eq!(f(c.head()), 7.0);
    assert_eq!(f(c.tail()), 7.0);
    c.update(b(8.0));
    assert_eq!(c.values(), vec![b(8.0)]);
}

#[test]
fn window_clears_after_n_valid_samples() {
    let mut g = GuardedWindow::new(3);
    assert_eq!(g.invalid(), 3);
    assert!(!g.is_clear());
    assert!(f(g.update(b(1.0))).is_nan());
    assert!(f(g.update(b(2.0))).is_nan());
    assert_eq!(g.invalid(), 1);
    assert!(!g.is_clear());
    assert!(f(g.update(b(3.0))).is_nan());
    assert!(g.is_clear());
    assert_eq!(f(g.update(b(4.0))), 1.0);
    assert!(g.is_clear());
}

#[test]
fn window_counts_infinities() {
    let mut g = GuardedWindow::new(2);
    g.update(b(1.0));
    g.update(b(f64::INFINITY));
    assert_eq!(g.invalid(), 1);
    g.update(b(f64::NEG_INFINITY));
    assert_eq!(g.invalid(), 2);
    g.update(b(2.0));
    g.update(b(3.0));
    assert!(g.is_clear());
    assert_eq!(g.container().values(), vec![b(2.0), b(3.0)]);
}

#[test]
fn short_stream_reports_invalid() {
    let n = 5;
    let mut mx = Maxer::new(n);
    let mut mn = Miner::new(n);
    let mut mm = MinMaxer::new(n);
    let mut mxi = MaxIndexer::new(n);
    let mut mni = MinIndexer::new(n);
    let mut mmi = MinMaxIndexer::new(n);
    let mut q = Quantiler::new(n);
    for x in [1.0, 2.0, 3.0, 4.0] {
        assert_eq!(mx.update(b(x)), None);
        assert_eq!(mn.update(b(x)), None);
        assert_eq!(mm.update(b(x)), None);
        assert_eq!(mxi.update(b(x)), None);
        assert_eq!(mni.update(b(x)), None);
        assert_eq!(mmi.update(b(x)), None);
        assert_eq!(q.update(b(x), 2), None);
    }
    assert_eq!(mx.update(b(0.5)), Some(b(4.0)));
}

#[test]
fn rolling_max_sequence() {
    let mut m = Maxer::new(3);
    let mut out = Vec::new();
    for x in [3.0, 1.0, 4.0, 1.0, 5.0, 9.0, 2.0, 6.0] {
        if let Some(v) = m.update(b(x)) {
            out.push(f(v));
        }
    }
    assert_eq!(out, vec![4.0, 4.0, 5.0, 9.0, 9.0, 9.0]);
}

#[test]
fn rolling_min_sequence() {
    let mut m = Miner::new(3);
    let mut out = Vec::new();
    for x in [3.0, 1.0, 4.0, 1.0, 5.0, 9.0, 2.0, 6.0] {
        if let Some(v) = m.update(b(x)) {
            out.push(f(v));
        }
    }
    assert_eq!(out, vec![1.0, 1.0, 1.0, 1.0, 2.0, 2.0]);
}

#[test]
fn rolling_min_max_pairs() {
    let mut m = MinMaxer::new(3);
    let mut out = Vec::new();
    for x in [3.0, 1.0, 4.0, 1.0, 5.0, 9.0, 2.0, 6.0] {
        if let Some((lo, hi)) = m.update(b(x)) {
            out.push((f(lo), f(hi)));
        }
    }
    assert_eq!(out, vec![(1.0, 4.0), (1.0, 4.0), (1.0, 5.0), (1.0, 9.0), (2.0, 9.0), (2.0, 9.0)]);
}

#[test]
fn max_index_counts_from_oldest() {
    let mut m = MaxIndexer::new(3);
    let mut out = Vec::new();
    for x in [3.0, 1.0, 4.0, 1.0, 5.0, 9.0, 2.0, 6.0] {
        if let Some((i, v)) = m.update(b(x)) {
            out.push((i, f(v)));
        }
    }
    assert_eq!(out, vec![(2, 4.0), (1, 4.0), (2, 5.0), (2, 9.0), (1, 9.0), (0, 9.0)]);
}

#[test]
fn max_index_ties_go_to_oldest() {
    let mut m = MaxIndexer::new(4);
    for x in [2.0, 7.0, 7.0, 1.0] {
        m.update(b(x));
    }
    assert_eq!(m.update(b(7.0)), Some((0, b(7.0))));
    assert_eq!(m.update(b(0.0)), Some((0, b(7.0))));
    assert_eq!(m.update(b(0.0)), Some((1, b(7.0))));
}

#[test]
fn min_index_ties_go_to_oldest() {
    let mut m = MinIndexer::new(3);
    for x in [5.0, 1.0, 1.0] {
        m.update(b(x));
    }
    assert_eq!(m.update(b(1.0)), Some((0, b(1.0))));
    assert_eq!(m.update(b(3.0)), Some((0, b(1.0))));
}

#[test]
fn min_max_index_reports_both() {
    let mut m = MinMaxIndexer::new(4);
    for x in [4.0, -2.0, 8.0, -2.0] {
        m.update(b(x));
    }
    assert_eq!(m.update(b(8.0)), Some((0, b(-2.0), 1, b(8.0))));
}

#[test]
fn zeros_tie_in_extrema() {
    let mut m = MaxIndexer::new(2);
    m.update(b(-0.0));
    assert_eq!(m.update(b(0.0)), Some((0, b(-0.0))));
}

#[test]
fn infinity_is_invalid() {
    let mut m = Maxer::new(2);
    m.update(b(1.0));
    assert_eq!(m.update(b(f64::INFINITY)), None);
    assert_eq!(m.update(b(2.0)), None);
    assert_eq!(m.update(b(3.0)), Some(b(3.0)));
}

#[test]
fn single_nan_poisons_n_results() {
    let n = 3;
    let mut m = Maxer::new(n);
    let stream = [1.0, 2.0, 3.0, f64::NAN, 4.0, 5.0, 6.0, 7.0, 8.0];
    let mut out = Vec::new();
    for x in stream {
        out.push(m.update(b(x)).map(f));
    }
    assert_eq!(
        out,
        vec![None, None, Some(3.0), None, None, None, Some(6.0), Some(7.0), Some(8.0)]
    );
}

fn quantile_of(q: &mut Quantiler, xs: &[f64], rank: usize) -> Option<(f64, f64)> {
    let mut r = None;
    for x in xs {
        r = q.update(b(*x), rank);
    }
    r.map(|(lo, hi)| (f(lo), f(hi)))
}

#[test]
fn quantile_ranks_of_one_to_five() {
    let xs = [1.0, 2.0, 3.0, 4.0, 5.0];
    assert_eq!(quantile_of(&mut Quantiler::new(5), &xs, 2), Some((3.0, 4.0)));
    assert_eq!(quantile_of(&mut Quantiler::new(5), &xs, 0), Some((1.0, 2.0)));
    assert_eq!(quantile_of(&mut Quantiler::new(5), &xs, 4), Some((5.0, 5.0)));
}

#[test]
fn quantile_interpolation_at_half() {
    // fractional rank (5 - 1) * 0.5 = 2.0: the lower value, exactly
    let xs = [5.0, 1.0, 4.0, 2.0, 3.0];
    let (lo, hi) = quantile_of(&mut Quantiler::new(5), &xs, 2).unwrap();
    let frac = 0.0;
    assert_eq!(lo + frac * (hi - lo), 3.0);
}

#[test]
fn quantile_follows_the_window() {
    let mut q = Quantiler::new(3);
    let xs = [9.0, 1.0, 5.0, 7.0, 3.0, 3.0];
    let mut out = Vec::new();
    for x in xs {
        out.push(q.update(b(x), 1).map(|(lo, hi)| (f(lo), f(hi))));
    }
    assert_eq!(
        out,
        vec![None, None, Some((5.0, 9.0)), Some((5.0, 7.0)), Some((5.0, 7.0)), Some((3.0, 7.0))]
    );
}

#[test]
fn quantile_with_repeated_values() {
    let mut q = Quantiler::new(4);
    let r = quantile_of(&mut q, &[2.0, 2.0, 1.0, 2.0], 1);
    assert_eq!(r, Some((2.0, 2.0)));
    assert_eq!(q.update(b(0.0), 0).map(|(lo, hi)| (f(lo), f(hi))), Some((0.0, 1.0)));
}

#[test]
fn quantile_recovers_after_nan() {
    let mut q = Quantiler::new(2);
    assert_eq!(quantile_of(&mut q, &[1.0, f64::NAN], 0), None);
    assert_eq!(q.update(b(4.0), 0), None);
    assert_eq!(q.update(b(3.0), 0), Some((b(3.0), b(4.0))));
}
