//! What every fold design built by `cv` satisfies: stratified folds
//! partition the labelled samples and keep the class proportions; spatial
//! folds never split a cluster between training and test.

use vstd::prelude::*;
use vstd::multiset::Multiset;
use crate::cv::{
    cluster_rank, concat_all, concat_except, deal, deal_prefix, fold_is, group_upto, indices_with,
    is_permutation, is_seeded_kfold, is_spatial_design, repeat_seed, is_stratified_design, is_stratified_kfold, labelled,
    lemma_concat_all_congruent, members, members_prefix, negatives, positives, positives_prefix,
    spatial_group, spatial_groups, spatial_train, stratified_test, stratified_tests, stratified_train,
    usable_folds, Fold,
};

verus! {

broadcast use {vstd::seq_lib::group_to_multiset_ensures, vstd::multiset::group_multiset_axioms};

// ── Multisets of concatenations ─────────────────────────────────────────────

proof fn lemma_concat_all_empty(g: spec_fn(int) -> Seq<usize>, m: int)
    requires
        forall|j: int| 0 <= j < m ==> #[trigger] g(j) == Seq::<usize>::empty(),
    ensures
        concat_all(g, m) == Seq::<usize>::empty(),
    decreases m,
{
    if m > 0 {
        lemma_concat_all_empty(g, m - 1);
        assert(concat_all(g, m) =~= concat_all(g, m - 1) + g(m - 1));
    }
}

/// Appending `x` to one group adds `x` once to the whole concatenation.
proof fn lemma_concat_all_insert(
    g1: spec_fn(int) -> Seq<usize>,
    g2: spec_fn(int) -> Seq<usize>,
    k0: int,
    x: usize,
    m: int,
)
    requires
        0 <= k0 < m,
        g2(k0) == g1(k0).push(x),
        forall|j: int| 0 <= j < m && j != k0 ==> #[trigger] g2(j) == g1(j),
    ensures
        concat_all(g2, m).to_multiset() == concat_all(g1, m).to_multiset().insert(x),
    decreases m,
{
    vstd::seq_lib::lemma_multiset_commutative(concat_all(g2, m - 1), g2(m - 1));
    vstd::seq_lib::lemma_multiset_commutative(concat_all(g1, m - 1), g1(m - 1));
    if m - 1 == k0 {
        lemma_concat_all_congruent(g1, g2, m - 1);
        assert(g2(m - 1).to_multiset() == g1(m - 1).to_multiset().insert(x));
        assert(concat_all(g2, m).to_multiset() =~= concat_all(g1, m).to_multiset().insert(x));
    } else {
        lemma_concat_all_insert(g1, g2, k0, x, m - 1);
        assert(concat_all(g2, m).to_multiset() =~= concat_all(g1, m).to_multiset().insert(x));
    }
}

/// Dealing the first `m` elements of `order` onto `n` folds loses and adds nothing.
pub proof fn lemma_deal_prefix_cover(order: Seq<usize>, n: int, m: int)
    requires
        n > 0,
        0 <= m <= order.len(),
    ensures
        concat_all(|k: int| deal_prefix(order, n, k, m), n).to_multiset() == order.take(m).to_multiset(),
    decreases m,
{
    let g2 = |k: int| deal_prefix(order, n, k, m);
    if m == 0 {
        lemma_concat_all_empty(g2, n);
        assert(order.take(0) =~= Seq::<usize>::empty());
    } else {
        let g1 = |k: int| deal_prefix(order, n, k, m - 1);
        lemma_deal_prefix_cover(order, n, m - 1);
        let k0 = (m - 1) % n;
        assert(0 <= k0 < n);
        assert forall|j: int| 0 <= j < n && j != k0 implies #[trigger] g2(j) == g1(j) by {}
        lemma_concat_all_insert(g1, g2, k0, order[m - 1], n);
        assert(order.take(m) =~= order.take(m - 1).push(order[m - 1]));
    }
}

/// The multiset of a group-wise concatenation splits into the two sides.
proof fn lemma_concat_all_pairs(a: spec_fn(int) -> Seq<usize>, b: spec_fn(int) -> Seq<usize>, m: int)
    ensures
        concat_all(|k: int| a(k) + b(k), m).to_multiset() == concat_all(a, m).to_multiset().add(
            concat_all(b, m).to_multiset(),
        ),
    decreases m,
{
    let ab = |k: int| a(k) + b(k);
    if m <= 0 {
        assert(concat_all(ab, m).to_multiset() =~= Multiset::<usize>::empty());
        assert(concat_all(a, m).to_multiset() =~= Multiset::<usize>::empty());
        assert(concat_all(b, m).to_multiset() =~= Multiset::<usize>::empty());
    } else {
        lemma_concat_all_pairs(a, b, m - 1);
        vstd::seq_lib::lemma_multiset_commutative(concat_all(ab, m - 1), ab(m - 1));
        vstd::seq_lib::lemma_multiset_commutative(a(m - 1), b(m - 1));
        vstd::seq_lib::lemma_multiset_commutative(concat_all(a, m - 1), a(m - 1));
        vstd::seq_lib::lemma_multiset_commutative(concat_all(b, m - 1), b(m - 1));
        assert(concat_all(ab, m).to_multiset() =~= concat_all(a, m).to_multiset().add(
            concat_all(b, m).to_multiset(),
        ));
    }
}

/// All groups but `k`, followed by group `k`, hold what all groups hold.
pub proof fn lemma_concat_except_complement(g: spec_fn(int) -> Seq<usize>, k: int, m: int)
    requires
        0 <= k < m,
    ensures
        (concat_except(g, k, m) + g(k)).to_multiset() == concat_all(g, m).to_multiset(),
    decreases m,
{
    vstd::seq_lib::lemma_multiset_commutative(concat_except(g, k, m), g(k));
    vstd::seq_lib::lemma_multiset_commutative(concat_all(g, m - 1), g(m - 1));
    if m - 1 == k {
        lemma_concat_except_all_below(g, k, m - 1);
    } else {
        lemma_concat_except_complement(g, k, m - 1);
        vstd::seq_lib::lemma_multiset_commutative(concat_except(g, k, m - 1), g(m - 1));
        vstd::seq_lib::lemma_multiset_commutative(concat_except(g, k, m - 1), g(k));
        assert(concat_except(g, k, m).to_multiset().add(g(k).to_multiset()) =~= concat_all(
            g,
            m,
        ).to_multiset());
    }
}

proof fn lemma_concat_except_all_below(g: spec_fn(int) -> Seq<usize>, k: int, m: int)
    requires
        m <= k,
    ensures
        concat_except(g, k, m) == concat_all(g, m),
    decreases m,
{
    if m > 0 {
        lemma_concat_except_all_below(g, k, m - 1);
    }
}

// ── Counting ─────────────────────────────────────────────────────────────────

/// Integer division moves by one exactly when the next value is a multiple.
proof fn lemma_div_step(a: int, n: int)
    requires
        a >= 0,
        n > 0,
    ensures
        (a + 1) / n == a / n + if (a + 1) % n == 0 {
            1int
        } else {
            0int
        },
{
    let q = a / n;
    let s = a % n;
    vstd::arithmetic::div_mod::lemma_fundamental_div_mod(a, n);
    if s + 1 == n {
        assert(a + 1 == (q + 1) * n + 0) by (nonlinear_arith)
            requires a == n * q + s, s + 1 == n;
        vstd::arithmetic::div_mod::lemma_fundamental_div_mod_converse(a + 1, n, q + 1, 0);
    } else {
        assert(a + 1 == q * n + (s + 1)) by (nonlinear_arith)
            requires a == n * q + s;
        vstd::arithmetic::div_mod::lemma_fundamental_div_mod_converse(a + 1, n, q, s + 1);
    }
}

/// `m + n - k` is a multiple of `n` exactly when `m` leaves remainder `k`.
proof fn lemma_shifted_multiple(m: int, n: int, k: int)
    requires
        m >= 0,
        0 <= k < n,
    ensures
        ((m + n - k) % n == 0) == (m % n == k),
{
    let q = m / n;
    let r = m % n;
    vstd::arithmetic::div_mod::lemma_fundamental_div_mod(m, n);
    if r == k {
        assert(m + n - k == (q + 1) * n + 0) by (nonlinear_arith)
            requires m == n * q + r, r == k;
        vstd::arithmetic::div_mod::lemma_fundamental_div_mod_converse(m + n - k, n, q + 1, 0);
    } else if r > k {
        assert(m + n - k == (q + 1) * n + (r - k)) by (nonlinear_arith)
            requires m == n * q + r;
        vstd::arithmetic::div_mod::lemma_fundamental_div_mod_converse(m + n - k, n, q + 1, r - k);
    } else {
        assert(m + n - k == q * n + (n + r - k)) by (nonlinear_arith)
            requires m == n * q + r;
        vstd::arithmetic::div_mod::lemma_fundamental_div_mod_converse(m + n - k, n, q, n + r - k);
    }
}

/// Fold `k` of `n` receives `(m + n - 1 - k) / n` of the first `m` dealt elements.
pub proof fn lemma_deal_prefix_len(order: Seq<usize>, n: int, k: int, m: int)
    requires
        0 <= k < n,
        0 <= m <= order.len(),
    ensures
        deal_prefix(order, n, k, m).len() == (m + n - 1 - k) / n,
    decreases m,
{
    if m == 0 {
        assert((n - 1 - k) / n == 0) by {
            vstd::arithmetic::div_mod::lemma_basic_div(n - 1 - k, n);
        }
    } else {
        lemma_deal_prefix_len(order, n, k, m - 1);
        lemma_div_step(m - 1 + n - 1 - k, n);
        lemma_shifted_multiple(m - 1, n, k);
    }
}

/// Dealing round-robin keeps fold sizes within one of each other: fold `k`
/// of `n` receives `(len + n - 1 - k) / n` elements.
pub proof fn lemma_deal_len(order: Seq<usize>, n: int, k: int)
    requires
        0 <= k < n,
    ensures
        deal(order, n, k).len() == (order.len() + n - 1 - k) / n,
{
    lemma_deal_prefix_len(order, n, k, order.len() as int);
}

/// Two quotients of values less than `n` apart differ by at most one.
proof fn lemma_close_quotients(a: int, b: int, n: int)
    requires
        n > 0,
        0 <= b <= a < b + n,
    ensures
        0 <= a / n - b / n <= 1,
{
    vstd::arithmetic::div_mod::lemma_fundamental_div_mod(a, n);
    vstd::arithmetic::div_mod::lemma_fundamental_div_mod(b, n);
    let qa = a / n;
    let qb = b / n;
    assert(0 <= a % n < n);
    assert(0 <= b % n < n);
    assert(qa >= qb) by (nonlinear_arith)
        requires a == n * qa + a % n, b == n * qb + b % n, b <= a, 0 <= a % n < n, 0 <= b % n < n, n > 0;
    assert(qa <= qb + 1) by (nonlinear_arith)
        requires a == n * qa + a % n, b == n * qb + b % n, a < b + n, 0 <= a % n < n, 0 <= b % n < n, n > 0;
}

/// Law: dealing round-robin, any two folds receive sizes that differ by at most one.
pub proof fn law_round_robin_balanced(order: Seq<usize>, n: int, j: int, k: int)
    requires
        0 <= j < n,
        0 <= k < n,
    ensures
        -1 <= deal(order, n, j).len() - deal(order, n, k).len() <= 1,
{
    lemma_deal_len(order, n, j);
    lemma_deal_len(order, n, k);
    let l = order.len() as int;
    if j <= k {
        lemma_close_quotients(l + n - 1 - j, l + n - 1 - k, n);
    } else {
        lemma_close_quotients(l + n - 1 - k, l + n - 1 - j, n);
    }
}

// ── Stratified designs ───────────────────────────────────────────────────────

/// The test sets of a stratified design, together, hold what was dealt.
proof fn lemma_stratified_tests_multiset(p: Seq<usize>, q: Seq<usize>, n: int)
    requires
        n > 0,
    ensures
        concat_all(stratified_tests(p, q, n), n).to_multiset() == (p + q).to_multiset(),
{
    let a = |k: int| deal(p, n, k);
    let b = |k: int| deal(q, n, k);
    lemma_concat_all_congruent(stratified_tests(p, q, n), |k: int| a(k) + b(k), n);
    lemma_concat_all_pairs(a, b, n);
    lemma_concat_all_congruent(a, |k: int| deal_prefix(p, n, k, p.len() as int), n);
    lemma_concat_all_congruent(b, |k: int| deal_prefix(q, n, k, q.len() as int), n);
    lemma_deal_prefix_cover(p, n, p.len() as int);
    lemma_deal_prefix_cover(q, n, q.len() as int);
    assert(p.take(p.len() as int) =~= p);
    assert(q.take(q.len() as int) =~= q);
    vstd::seq_lib::lemma_multiset_commutative(p, q);
}

/// Law: in a stratified design, each fold's training part and test part
/// together hold exactly the dealt samples, each as often as it was dealt.
pub proof fn law_stratified_fold_partition(folds: Seq<Fold>, p: Seq<usize>, q: Seq<usize>, n: int, repeat: int, k: int)
    requires
        is_stratified_design(folds, p, q, n, repeat),
        0 <= k < n,
    ensures
        (folds[k].train_idx@ + folds[k].test_idx@).to_multiset() == (p + q).to_multiset(),
{
    assert(fold_is(folds[k], repeat, k, stratified_test(p, q, n, k), stratified_train(p, q, n, k)));
    lemma_concat_except_complement(stratified_tests(p, q, n), k, n);
    lemma_stratified_tests_multiset(p, q, n);
}

/// Law: in a stratified design, the test parts of the folds, one after
/// another, hold exactly the dealt samples.
pub proof fn law_stratified_tests_cover(folds: Seq<Fold>, p: Seq<usize>, q: Seq<usize>, n: int, repeat: int)
    requires
        is_stratified_design(folds, p, q, n, repeat),
        n > 0,
    ensures
        concat_all(|k: int| folds[k].test_idx@, n).to_multiset() == (p + q).to_multiset(),
{
    let tests = |k: int| folds[k].test_idx@;
    assert forall|k: int| #![trigger folds[k]] 0 <= k < n implies tests(k) == stratified_tests(p, q, n)(k) by {
        assert(fold_is(folds[k], repeat, k, stratified_test(p, q, n, k), stratified_train(p, q, n, k)));
    }
    lemma_concat_all_congruent(tests, stratified_tests(p, q, n), n);
    lemma_stratified_tests_multiset(p, q, n);
}

/// How often `x` occurs among the samples labelled `v` below `m`.
proof fn lemma_indices_with_count(y: Seq<i32>, v: i32, m: int, x: usize)
    requires
        0 <= m <= y.len(),
        y.len() <= usize::MAX,
    ensures
        indices_with(y, v, m).to_multiset().count(x) == if x < m && y[x as int] == v {
            1nat
        } else {
            0nat
        },
    decreases m,
{
    if m > 0 {
        lemma_indices_with_count(y, v, m - 1, x);
        let prev = indices_with(y, v, m - 1);
        if y[m - 1] == v {
            assert(indices_with(y, v, m) == prev.push((m - 1) as usize));
            assert(prev.push((m - 1) as usize).to_multiset() =~= prev.to_multiset().insert((m - 1) as usize));
        }
    } else {
        assert(indices_with(y, v, m).to_multiset() =~= Multiset::<usize>::empty());
    }
}

/// How often sample `x` is labelled 0 or 1 at all: once if it is, never otherwise.
pub open spec fn labelled_once(y: Seq<i32>, x: usize) -> nat {
    if x < y.len() && (y[x as int] == 1 || y[x as int] == 0) {
        1
    } else {
        0
    }
}

proof fn lemma_labelled_pair_count(y: Seq<i32>, p: Seq<usize>, q: Seq<usize>, x: usize)
    requires
        y.len() <= usize::MAX,
        is_permutation(p, labelled(y, 1)),
        is_permutation(q, labelled(y, 0)),
    ensures
        (p + q).to_multiset().count(x) == labelled_once(y, x),
{
    vstd::seq_lib::lemma_multiset_commutative(p, q);
    lemma_indices_with_count(y, 1, y.len() as int, x);
    lemma_indices_with_count(y, 0, y.len() as int, x);
}

/// Law: every fold of a stratified K-fold design over labels `y` holds each
/// labelled sample exactly once, in its training part or in its test part
/// and never in both, and holds nothing else.
pub proof fn law_stratified_kfold_partition(folds: Seq<Fold>, y: Seq<i32>, n: int, repeat: int, k: int, x: usize)
    requires
        y.len() <= usize::MAX,
        is_stratified_kfold(folds, y, n, repeat),
        0 <= k < n,
    ensures
        (folds[k].train_idx@ + folds[k].test_idx@).to_multiset().count(x) == labelled_once(y, x),
        !(folds[k].train_idx@.contains(x) && folds[k].test_idx@.contains(x)),
{
    let (p, q) = choose|p: Seq<usize>, q: Seq<usize>|
        is_permutation(p, labelled(y, 1)) && is_permutation(q, labelled(y, 0))
            && is_stratified_design(folds, p, q, n, repeat);
    law_stratified_fold_partition(folds, p, q, n, repeat, k);
    lemma_labelled_pair_count(y, p, q, x);
    vstd::seq_lib::lemma_multiset_commutative(folds[k].train_idx@, folds[k].test_idx@);
}

/// Law: the test parts of a stratified K-fold design over labels `y`,
/// together, hold each labelled sample exactly once and nothing else.
pub proof fn law_stratified_kfold_tests_cover(folds: Seq<Fold>, y: Seq<i32>, n: int, repeat: int, x: usize)
    requires
        y.len() <= usize::MAX,
        is_stratified_kfold(folds, y, n, repeat),
        n > 0,
    ensures
        concat_all(|k: int| folds[k].test_idx@, n).to_multiset().count(x) == labelled_once(y, x),
{
    let (p, q) = choose|p: Seq<usize>, q: Seq<usize>|
        is_permutation(p, labelled(y, 1)) && is_permutation(q, labelled(y, 0))
            && is_stratified_design(folds, p, q, n, repeat);
    law_stratified_tests_cover(folds, p, q, n, repeat);
    lemma_labelled_pair_count(y, p, q, x);
}

/// What fold `k` receives is drawn from the dealt order.
proof fn lemma_deal_prefix_from(order: Seq<usize>, n: int, k: int, m: int, i: int)
    requires
        0 <= m <= order.len(),
        0 <= i < deal_prefix(order, n, k, m).len(),
    ensures
        order.contains(deal_prefix(order, n, k, m)[i]),
    decreases m,
{
    if m > 0 {
        let prev = deal_prefix(order, n, k, m - 1);
        if i < prev.len() {
            lemma_deal_prefix_from(order, n, k, m - 1, i);
        } else {
            assert(order[m - 1] == deal_prefix(order, n, k, m)[i]);
        }
    }
}

proof fn lemma_positives_concat(y: Seq<i32>, a: Seq<usize>, b: Seq<usize>, m: int)
    requires
        0 <= m <= b.len(),
    ensures
        positives_prefix(y, a + b, a.len() + m) == positives(y, a) + positives_prefix(y, b, m),
    decreases m,
{
    if m == 0 {
        lemma_positives_prefix_prefix(y, a + b, a, a.len() as int);
    } else {
        lemma_positives_concat(y, a, b, m - 1);
        assert((a + b)[a.len() + m - 1] == b[m - 1]);
    }
}

proof fn lemma_positives_prefix_prefix(y: Seq<i32>, s: Seq<usize>, t: Seq<usize>, m: int)
    requires
        0 <= m <= t.len(),
        m <= s.len(),
        forall|i: int| 0 <= i < m ==> s[i] == t[i],
    ensures
        positives_prefix(y, s, m) == positives_prefix(y, t, m),
    decreases m,
{
    if m > 0 {
        lemma_positives_prefix_prefix(y, s, t, m - 1);
    }
}

proof fn lemma_positives_uniform(y: Seq<i32>, a: Seq<usize>, m: int, v: i32)
    requires
        0 <= m <= a.len(),
        v == 1 || v == 0,
        forall|i: int| 0 <= i < a.len() ==> y[#[trigger] a[i] as int] == v,
    ensures
        positives_prefix(y, a, m) == if v == 1 {
            m
        } else {
            0
        },
    decreases m,
{
    if m > 0 {
        lemma_positives_uniform(y, a, m - 1, v);
    }
}

proof fn lemma_dealt_labels(y: Seq<i32>, order: Seq<usize>, v: i32, n: int, k: int)
    requires
        y.len() <= usize::MAX,
        is_permutation(order, labelled(y, v)),
    ensures
        forall|i: int| 0 <= i < deal(order, n, k).len() ==> y[#[trigger] deal(order, n, k)[i] as int] == v,
{
    assert forall|i: int| 0 <= i < deal(order, n, k).len() implies y[#[trigger] deal(order, n, k)[i] as int] == v by {
        let x = deal(order, n, k)[i];
        lemma_deal_prefix_from(order, n, k, order.len() as int, i);
        assert(order.to_multiset().count(x) > 0);
        lemma_indices_with_count(y, v, y.len() as int, x);
    }
}

/// Law (class proportions): in a stratified K-fold design over labels `y`
/// with `n` folds, the test part of fold `k` holds `(n_pos + n - 1 - k) / n`
/// positives and `(n_neg + n - 1 - k) / n` negatives, so any two folds
/// differ by at most one sample of each class.
pub proof fn law_stratified_kfold_balance(folds: Seq<Fold>, y: Seq<i32>, n: int, repeat: int, k: int)
    requires
        y.len() <= usize::MAX,
        is_stratified_kfold(folds, y, n, repeat),
        0 <= k < n,
    ensures
        positives(y, folds[k].test_idx@) == (labelled(y, 1).len() + n - 1 - k) / n,
        negatives(y, folds[k].test_idx@) == (labelled(y, 0).len() + n - 1 - k) / n,
{
    let (p, q) = choose|p: Seq<usize>, q: Seq<usize>|
        is_permutation(p, labelled(y, 1)) && is_permutation(q, labelled(y, 0))
            && is_stratified_design(folds, p, q, n, repeat);
    assert(fold_is(folds[k], repeat, k, stratified_test(p, q, n, k), stratified_train(p, q, n, k)));
    let dp = deal(p, n, k);
    let dq = deal(q, n, k);
    lemma_dealt_labels(y, p, 1, n, k);
    lemma_dealt_labels(y, q, 0, n, k);
    lemma_positives_uniform(y, dp, dp.len() as int, 1);
    lemma_positives_uniform(y, dq, dq.len() as int, 0);
    lemma_positives_concat(y, dp, dq, dq.len() as int);
    lemma_deal_len(p, n, k);
    lemma_deal_len(q, n, k);
    assert(p.len() == p.to_multiset().len());
    assert(labelled(y, 1).len() == labelled(y, 1).to_multiset().len());
    assert(q.len() == q.to_multiset().len());
    assert(labelled(y, 0).len() == labelled(y, 0).to_multiset().len());
}

// ── Spatial designs ──────────────────────────────────────────────────────────

proof fn lemma_members_contains(cids: Seq<usize>, c: int, m: int, x: usize)
    requires
        0 <= m <= cids.len(),
        cids.len() <= usize::MAX,
    ensures
        members_prefix(cids, c, m).contains(x) <==> (x < m && cids[x as int] == c),
    decreases m,
{
    if m > 0 {
        lemma_members_contains(cids, c, m - 1, x);
        let prev = members_prefix(cids, c, m - 1);
        if cids[m - 1] == c {
            assert(members_prefix(cids, c, m) == prev.push((m - 1) as usize));
            if x < m - 1 && cids[x as int] == c {
                let i = choose|i: int| 0 <= i < prev.len() && prev[i] == x;
                assert(prev.push((m - 1) as usize)[i] == x);
            }
            if x == m - 1 {
                assert(prev.push((m - 1) as usize)[prev.len() as int] == x);
            }
            let pushed = prev.push((m - 1) as usize);
            if pushed.contains(x) && x != m - 1 {
                let i = choose|i: int| 0 <= i < pushed.len() && #[trigger] pushed[i] == x;
                assert(prev[i] == x);
            }
        }
    }
}

proof fn lemma_group_contains(cids: Seq<usize>, n: int, f: int, c: int, x: usize)
    requires
        c >= 0,
        cids.len() <= usize::MAX,
    ensures
        group_upto(cids, n, f, c).contains(x) <==> (x < cids.len() && cids[x as int] < c
            && cluster_rank(cids, cids[x as int] as int) % n == f),
    decreases c,
{
    if c > 0 {
        lemma_group_contains(cids, n, f, c - 1, x);
        lemma_members_contains(cids, c - 1, cids.len() as int, x);
        let prev = group_upto(cids, n, f, c - 1);
        if cluster_rank(cids, c - 1) % n == f {
            let mem = members(cids, c - 1);
            assert(group_upto(cids, n, f, c) == prev + mem);
            if prev.contains(x) {
                let i = choose|i: int| 0 <= i < prev.len() && prev[i] == x;
                assert((prev + mem)[i] == x);
            }
            if mem.contains(x) {
                let i = choose|i: int| 0 <= i < mem.len() && mem[i] == x;
                assert((prev + mem)[prev.len() + i] == x);
            }
            let whole = prev + mem;
            if whole.contains(x) {
                let i = choose|i: int| 0 <= i < whole.len() && #[trigger] whole[i] == x;
                if i < prev.len() {
                    assert(prev[i] == x);
                } else {
                    assert(mem[i - prev.len()] == x);
                }
            }
        }
    }
}

proof fn lemma_concat_except_member(g: spec_fn(int) -> Seq<usize>, k: int, m: int, x: usize)
    requires
        concat_except(g, k, m).contains(x),
    ensures
        exists|j: int| 0 <= j < m && j != k && #[trigger] g(j).contains(x),
    decreases m,
{
    if m > 0 {
        let prev = concat_except(g, k, m - 1);
        if m - 1 == k {
            lemma_concat_except_member(g, k, m - 1, x);
        } else {
            let whole = prev + g(m - 1);
            let i = choose|i: int| 0 <= i < whole.len() && #[trigger] whole[i] == x;
            if i < prev.len() {
                assert(prev[i] == x);
                lemma_concat_except_member(g, k, m - 1, x);
            } else {
                assert(g(m - 1)[i - prev.len()] == x);
                assert(g(m - 1).contains(x));
            }
        }
    }
}

proof fn lemma_usable_in_range(cids: Seq<usize>, n: int, m: int, t: int)
    requires
        0 <= t < usable_folds(cids, n, m).len(),
    ensures
        0 <= usable_folds(cids, n, m)[t] < m,
    decreases m,
{
    if m > 0 {
        let prev = usable_folds(cids, n, m - 1);
        if t < prev.len() {
            lemma_usable_in_range(cids, n, m - 1, t);
        }
    }
}

/// Law: a sample is in the test part of spatial fold `k` exactly when its
/// cluster's position among the non-empty clusters is `k` modulo the number
/// of folds.
pub proof fn law_spatial_test_membership(folds: Seq<Fold>, cids: Seq<usize>, n: int, t: int, x: usize)
    requires
        is_spatial_design(folds, cids, n),
        cids.len() <= usize::MAX,
        forall|i: int| 0 <= i < cids.len() ==> cids[i] < usize::MAX,
        0 <= t < folds.len(),
    ensures
        folds[t].test_idx@.contains(x) <==> (x < cids.len() && cluster_rank(cids, cids[x as int] as int) % n
            == folds[t].fold),
{
    let ks = usable_folds(cids, n, n);
    assert(fold_is(folds[t], 0, ks[t], spatial_group(cids, n, ks[t]), spatial_train(cids, n, ks[t])));
    lemma_group_contains(cids, n, ks[t], usize::MAX as int, x);
}

/// Law (group integrity): spatial folds never split a cluster; no sample in
/// the test part of a fold shares its cluster with a sample in the training part.
pub proof fn law_spatial_fold_keeps_clusters(folds: Seq<Fold>, cids: Seq<usize>, n: int, t: int, a: usize, b: usize)
    requires
        is_spatial_design(folds, cids, n),
        cids.len() <= usize::MAX,
        forall|i: int| 0 <= i < cids.len() ==> cids[i] < usize::MAX,
        0 <= t < folds.len(),
        folds[t].test_idx@.contains(a),
        folds[t].train_idx@.contains(b),
    ensures
        a < cids.len() && b < cids.len() && cids[a as int] != cids[b as int],
{
    let ks = usable_folds(cids, n, n);
    let k = ks[t];
    lemma_usable_in_range(cids, n, n, t);
    assert(fold_is(folds[t], 0, k, spatial_group(cids, n, k), spatial_train(cids, n, k)));
    lemma_group_contains(cids, n, k, usize::MAX as int, a);
    lemma_concat_except_member(spatial_groups(cids, n), k, n, b);
    let j = choose|j: int| 0 <= j < n && j != k && #[trigger] spatial_groups(cids, n)(j).contains(b);
    lemma_group_contains(cids, n, j, usize::MAX as int, b);
}

/// Law (reproducibility): two designs made with the same seed for the same
/// labels, fold count and repeat number are the same design, fold by fold.
pub proof fn law_seeded_folds_reproducible(a: Seq<Fold>, b: Seq<Fold>, y: Seq<i32>, n: int, seed: u64, repeat: int, k: int)
    requires
        is_seeded_kfold(a, y, n, seed, repeat),
        is_seeded_kfold(b, y, n, seed, repeat),
        0 <= k < n,
    ensures
        a.len() == b.len(),
        a[k].repeat == b[k].repeat,
        a[k].fold == b[k].fold,
        a[k].test_idx@ == b[k].test_idx@,
        a[k].train_idx@ == b[k].train_idx@,
{
    assert(fold_is(a[k], repeat, k, a[k].test_idx@, a[k].train_idx@));
    assert(fold_is(b[k], repeat, k, b[k].test_idx@, b[k].train_idx@));
}

/// Law: the repeats of a repeated design are shuffled with pairwise distinct
/// seeds, so no repeat is made with another's seed.
pub proof fn law_repeat_seeds_distinct(base: u64, r1: int, r2: int)
    requires
        0 <= r1 < r2,
        r2 * 1_000_003 <= u64::MAX,
    ensures
        repeat_seed(base, r1) != repeat_seed(base, r2),
{
    let m: int = 0x1_0000_0000_0000_0000;
    let a: int = base + r1 * 1_000_003;
    let b: int = base + r2 * 1_000_003;
    assert(0 < b - a < m) by (nonlinear_arith)
        requires a == base + r1 * 1_000_003, b == base + r2 * 1_000_003, 0 <= r1 < r2, r2 * 1_000_003 <= 0xffff_ffff_ffff_ffff, m == 0x1_0000_0000_0000_0000;
    vstd::arithmetic::div_mod::lemma_fundamental_div_mod(a, m);
    vstd::arithmetic::div_mod::lemma_fundamental_div_mod(b, m);
    assert(0 <= a % m < m);
    assert(0 <= b % m < m);
    if a % m == b % m {
        assert(b - a == m * (b / m - a / m)) by (nonlinear_arith)
            requires a == m * (a / m) + a % m, b == m * (b / m) + b % m, a % m == b % m;
        assert(false) by (nonlinear_arith)
            requires b - a == m * (b / m - a / m), 0 < b - a < m, m > 0;
    }
}

} // verus!
