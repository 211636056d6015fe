//! Cross-validation fold construction: stratified K-fold (optionally
//! repeated), spatial group K-fold, inner folds for tuning, and the check
//! that a binary design is usable.

use vstd::prelude::*;

verus! {

/// A single fold: indices of training samples and test samples.
#[derive(Debug, Clone)]
pub struct Fold {
    pub repeat: usize,
    pub fold: usize,
    pub train_idx: Vec<usize>,
    pub test_idx: Vec<usize>,
}

// ── Index-sequence specifications ────────────────────────────────────────────

/// The elements of `order` at the positions `i < m` with `i % n == k`, in order:
/// what fold `k` receives when `order` is dealt round-robin onto `n` folds.
pub open spec fn deal_prefix(order: Seq<usize>, n: int, k: int, m: int) -> Seq<usize>
    decreases m,
{
    if m <= 0 {
        Seq::empty()
    } else {
        let p = deal_prefix(order, n, k, m - 1);
        if (m - 1) % n == k {
            p.push(order[m - 1])
        } else {
            p
        }
    }
}

/// What fold `k` receives when all of `order` is dealt onto `n` folds.
pub open spec fn deal(order: Seq<usize>, n: int, k: int) -> Seq<usize> {
    deal_prefix(order, n, k, order.len() as int)
}

/// The concatenation of `groups(0) .. groups(m - 1)`.
pub open spec fn concat_all(groups: spec_fn(int) -> Seq<usize>, m: int) -> Seq<usize>
    decreases m,
{
    if m <= 0 {
        Seq::empty()
    } else {
        concat_all(groups, m - 1) + groups(m - 1)
    }
}

/// The concatenation of `groups(j)` for `j < m`, `j != k`, in order of `j`.
pub open spec fn concat_except(groups: spec_fn(int) -> Seq<usize>, k: int, m: int) -> Seq<usize>
    decreases m,
{
    if m <= 0 {
        Seq::empty()
    } else if m - 1 == k {
        concat_except(groups, k, m - 1)
    } else {
        concat_except(groups, k, m - 1) + groups(m - 1)
    }
}

/// The test set of stratified fold `k` for given orders of the positive and
/// negative sample indices: positives dealt round-robin, then negatives.
pub open spec fn stratified_test(pos: Seq<usize>, neg: Seq<usize>, n: int, k: int) -> Seq<usize> {
    deal(pos, n, k) + deal(neg, n, k)
}

/// The test sets of stratified folds, as a function of the fold index.
pub open spec fn stratified_tests(pos: Seq<usize>, neg: Seq<usize>, n: int) -> spec_fn(int) -> Seq<usize> {
    |k: int| stratified_test(pos, neg, n, k)
}

/// The training set of stratified fold `k`: every other fold's test set, in fold order.
pub open spec fn stratified_train(pos: Seq<usize>, neg: Seq<usize>, n: int, k: int) -> Seq<usize> {
    concat_except(stratified_tests(pos, neg, n), k, n)
}

/// Fold `f` carries the given repeat and fold numbers, test set and training set.
pub open spec fn fold_is(f: Fold, repeat: int, k: int, test: Seq<usize>, train: Seq<usize>) -> bool {
    &&& f.repeat == repeat
    &&& f.fold == k
    &&& f.test_idx@ == test
    &&& f.train_idx@ == train
}

/// `folds` is the stratified K-fold design for the given orders of positives and negatives.
pub open spec fn is_stratified_design(folds: Seq<Fold>, pos: Seq<usize>, neg: Seq<usize>, n: int, repeat: int) -> bool {
    &&& folds.len() == n
    &&& forall|k: int|
        0 <= k < n ==> fold_is(
            #[trigger] folds[k],
            repeat,
            k,
            stratified_test(pos, neg, n, k),
            stratified_train(pos, neg, n, k),
        )
}

/// `concat_except` only looks at the groups below `m`.
pub proof fn lemma_concat_except_congruent(
    g1: spec_fn(int) -> Seq<usize>,
    g2: spec_fn(int) -> Seq<usize>,
    k: int,
    m: int,
)
    requires
        forall|j: int| 0 <= j < m ==> #[trigger] g1(j) == g2(j),
    ensures
        concat_except(g1, k, m) == concat_except(g2, k, m),
    decreases m,
{
    if m > 0 {
        lemma_concat_except_congruent(g1, g2, k, m - 1);
    }
}

/// `concat_all` only looks at the groups below `m`.
pub proof fn lemma_concat_all_congruent(g1: spec_fn(int) -> Seq<usize>, g2: spec_fn(int) -> Seq<usize>, m: int)
    requires
        forall|j: int| 0 <= j < m ==> #[trigger] g1(j) == g2(j),
    ensures
        concat_all(g1, m) == concat_all(g2, m),
    decreases m,
{
    if m > 0 {
        lemma_concat_all_congruent(g1, g2, m - 1);
    }
}

/// The indices `i < m` with `y[i] == v`, in increasing order.
pub open spec fn indices_with(y: Seq<i32>, v: i32, m: int) -> Seq<usize>
    decreases m,
{
    if m <= 0 {
        Seq::empty()
    } else if y[m - 1] == v {
        indices_with(y, v, m - 1).push((m - 1) as usize)
    } else {
        indices_with(y, v, m - 1)
    }
}

/// The indices of the samples labelled `v`, in increasing order.
pub open spec fn labelled(y: Seq<i32>, v: i32) -> Seq<usize> {
    indices_with(y, v, y.len() as int)
}

/// Both classes occur among the labels.
pub open spec fn has_both_classes(y: Seq<i32>) -> bool {
    labelled(y, 1).len() > 0 && labelled(y, 0).len() > 0
}

/// `p` holds the same elements as `s`, each as often.
pub open spec fn is_permutation(p: Seq<usize>, s: Seq<usize>) -> bool {
    p.to_multiset() == s.to_multiset()
}

/// `folds` is a stratified design with repeat number `repeat` for some order of
/// the positives and some order of the negatives of `y`.
pub open spec fn is_stratified_kfold(folds: Seq<Fold>, y: Seq<i32>, n: int, repeat: int) -> bool {
    exists|p: Seq<usize>, q: Seq<usize>|
        #![trigger is_stratified_design(folds, p, q, n, repeat)]
        is_permutation(p, labelled(y, 1)) && is_permutation(q, labelled(y, 0))
            && is_stratified_design(folds, p, q, n, repeat)
}

/// Why a fold design could not be built or was rejected.
#[derive(Debug, Clone, PartialEq)]
pub enum CvError {
    /// Fewer samples than folds.
    TooFewSamples { n_samples: usize, n_folds: usize },
    /// Stratification needs at least one positive and one negative sample.
    MissingClass,
    /// Inner folds need at least two training samples per fold.
    TooFewInnerSamples { n_inner: usize },
    /// The design produced another number of usable folds than requested.
    FoldCountMismatch { cv_mode: String, produced: usize, requested: usize },
    /// A fold lacks a class in its training or its test part.
    UnbalancedFold {
        cv_mode: String,
        repeat: usize,
        fold: usize,
        train_pos: usize,
        train_neg: usize,
        test_pos: usize,
        test_neg: usize,
    },
}

// ── Random shuffling (rand / rand_chacha) ──────────────────────────────────

/// The orders into which a `rand_chacha::ChaCha8Rng` seeded with `seed`
/// shuffles the positive and then the negative indices.
pub uninterp spec fn chacha8_shuffles(seed: u64, pos: Seq<usize>, neg: Seq<usize>) -> (Seq<usize>, Seq<usize>);

/// `rand::SeedableRng::seed_from_u64` for `rand_chacha::ChaCha8Rng`, then
/// `rand::seq::SliceRandom::shuffle` of `pos` and of `neg` with that one
/// generator, in this order. The generator's stream is fixed by the seed and
/// the shuffle is reproducible, so the orders are a function of the seed and
/// the two inputs, named by `chacha8_shuffles`; the shuffle only swaps, so
/// each vector keeps its elements.
#[verifier::external_body]
fn seeded_shuffles(seed: u64, pos: &mut Vec<usize>, neg: &mut Vec<usize>)
    ensures
        (final(pos)@, final(neg)@) == chacha8_shuffles(seed, old(pos)@, old(neg)@),
        final(pos)@.to_multiset() == old(pos)@.to_multiset(),
        final(neg)@.to_multiset() == old(neg)@.to_multiset(),
{
    let mut rng = <rand_chacha::ChaCha8Rng as rand::SeedableRng>::seed_from_u64(seed);
    rand::seq::SliceRandom::shuffle(pos.as_mut_slice(), &mut rng);
    rand::seq::SliceRandom::shuffle(neg.as_mut_slice(), &mut rng);
}

/// The orders in which a design seeded with `seed` deals the positives and
/// the negatives of `y`.
pub open spec fn seeded_orders(y: Seq<i32>, seed: u64) -> (Seq<usize>, Seq<usize>) {
    chacha8_shuffles(seed, labelled(y, 1), labelled(y, 0))
}

/// `folds` is the stratified design that seed `seed` gives labels `y`, with
/// repeat number `repeat`.
pub open spec fn is_seeded_kfold(folds: Seq<Fold>, y: Seq<i32>, n: int, seed: u64, repeat: int) -> bool {
    is_stratified_design(folds, seeded_orders(y, seed).0, seeded_orders(y, seed).1, n, repeat)
}

/// The seed of repeat `rep`: `base + rep * 1_000_003`, wrapping at 2^64.
pub open spec fn repeat_seed(base: u64, rep: int) -> u64 {
    ((base + rep * 1_000_003) % 0x1_0000_0000_0000_0000) as u64
}

// ── Executable helpers ───────────────────────────────────────────────────────

/// Deals `order` round-robin onto `n` folds and returns what fold `k` receives.
fn deal_exec(order: &Vec<usize>, n: usize, k: usize) -> (r: Vec<usize>)
    requires
        n > 0,
    ensures
        r@ == deal(order@, n as int, k as int),
{
    let mut r: Vec<usize> = Vec::new();
    let mut i: usize = 0;
    while i < order.len()
        invariant
            n > 0,
            i <= order.len(),
            r@ == deal_prefix(order@, n as int, k as int, i as int),
        decreases order.len() - i,
    {
        if i % n == k {
            r.push(order[i]);
        }
        i = i + 1;
    }
    r
}

/// Copies a slice of indices into a fresh vector.
fn copy_indices(v: &[usize]) -> (r: Vec<usize>)
    ensures
        r@ == v@,
{
    let mut r: Vec<usize> = Vec::new();
    let mut i: usize = 0;
    while i < v.len()
        invariant
            i <= v.len(),
            r@ == v@.take(i as int),
        decreases v.len() - i,
    {
        r.push(v[i]);
        assert(v@.take(i + 1) =~= v@.take(i as int).push(v@[i as int]));
        i = i + 1;
    }
    assert(v@.take(v.len() as int) =~= v@);
    r
}

/// The concatenation of all groups but group `k`, in group order.
fn concat_except_exec(groups: &Vec<Vec<usize>>, k: usize) -> (r: Vec<usize>)
    ensures
        r@ == concat_except(|j: int| groups@[j]@, k as int, groups.len() as int),
{
    let ghost g = |j: int| groups@[j]@;
    let mut r: Vec<usize> = Vec::new();
    let mut j: usize = 0;
    while j < groups.len()
        invariant
            j <= groups.len(),
            g == (|j: int| groups@[j]@),
            r@ == concat_except(g, k as int, j as int),
        decreases groups.len() - j,
    {
        if j != k {
            let mut part = copy_indices(groups[j].as_slice());
            r.append(&mut part);
        }
        j = j + 1;
    }
    r
}

/// The stratified K-fold design for given orders of the positive and negative
/// sample indices: positives are dealt round-robin onto the folds, then
/// negatives; each fold's training set is every other fold's test set.
pub fn stratified_folds_from_order(pos_order: &Vec<usize>, neg_order: &Vec<usize>, n_folds: usize) -> (folds: Vec<Fold>)
    requires
        n_folds > 0,
    ensures
        is_stratified_design(folds@, pos_order@, neg_order@, n_folds as int, 0),
{
    let ghost n = n_folds as int;
    let mut tests: Vec<Vec<usize>> = Vec::new();
    let mut k: usize = 0;
    while k < n_folds
        invariant
            n == n_folds as int,
            k <= n_folds,
            tests.len() == k,
            forall|j: int| 0 <= j < k ==> (#[trigger] tests@[j])@ == stratified_test(pos_order@, neg_order@, n, j),
        decreases n_folds - k,
    {
        let mut t = deal_exec(pos_order, n_folds, k);
        let mut tn = deal_exec(neg_order, n_folds, k);
        t.append(&mut tn);
        tests.push(t);
        k = k + 1;
    }
    let mut folds: Vec<Fold> = Vec::new();
    let mut k: usize = 0;
    while k < n_folds
        invariant
            k <= n_folds,
            n == n_folds as int,
            tests.len() == n_folds,
            forall|j: int| 0 <= j < n_folds ==> (#[trigger] tests@[j])@ == stratified_test(pos_order@, neg_order@, n, j),
            folds.len() == k,
            forall|j: int|
                0 <= j < k ==> fold_is(
                    #[trigger] folds@[j],
                    0,
                    j,
                    stratified_test(pos_order@, neg_order@, n, j),
                    stratified_train(pos_order@, neg_order@, n, j),
                ),
        decreases n_folds - k,
    {
        let test_idx = copy_indices(tests[k].as_slice());
        let train_idx = concat_except_exec(&tests, k);
        proof {
            lemma_concat_except_congruent(
                |j: int| tests@[j]@,
                stratified_tests(pos_order@, neg_order@, n),
                k as int,
                n,
            );
        }
        folds.push(Fold { repeat: 0, fold: k, train_idx, test_idx });
        k = k + 1;
    }
    folds
}

/// The indices of the samples labelled `v`, in increasing order.
fn indices_of(y: &[i32], v: i32) -> (r: Vec<usize>)
    ensures
        r@ == labelled(y@, v),
{
    let mut r: Vec<usize> = Vec::new();
    let mut i: usize = 0;
    while i < y.len()
        invariant
            i <= y.len(),
            r@ == indices_with(y@, v, i as int),
        decreases y.len() - i,
    {
        if y[i] == v {
            r.push(i);
        }
        i = i + 1;
    }
    r
}

/// Stratified K-fold: preserves class proportion in each fold.
///
/// Fails when there are fewer samples than folds, or when a class is absent.
/// Otherwise the positives and the negatives are each shuffled with a
/// generator seeded by `shuffle_seed` and dealt round-robin onto the folds
/// (`stratified_folds_from_order`).
pub fn stratified_kfold(y: &[i32], n_folds: usize, shuffle_seed: u64) -> (r: Result<Vec<Fold>, CvError>)
    requires
        n_folds == 0 ==> !has_both_classes(y@),
    ensures
        y.len() < n_folds ==> r == Err::<Vec<Fold>, CvError>(
            CvError::TooFewSamples { n_samples: y.len(), n_folds },
        ),
        y.len() >= n_folds && !has_both_classes(y@) ==> r == Err::<Vec<Fold>, CvError>(
            CvError::MissingClass,
        ),
        y.len() >= n_folds && has_both_classes(y@) ==> (r matches Ok(folds)
            && is_seeded_kfold(folds@, y@, n_folds as int, shuffle_seed, 0)
            && is_stratified_kfold(folds@, y@, n_folds as int, 0)),
{
    let n = y.len();
    if n < n_folds {
        return Err(CvError::TooFewSamples { n_samples: n, n_folds });
    }
    let pos_idx = indices_of(y, 1);
    let neg_idx = indices_of(y, 0);
    if pos_idx.len() == 0 || neg_idx.len() == 0 {
        return Err(CvError::MissingClass);
    }
    let mut pos_shuffled = pos_idx;
    let mut neg_shuffled = neg_idx;
    seeded_shuffles(shuffle_seed, &mut pos_shuffled, &mut neg_shuffled);
    let folds = stratified_folds_from_order(&pos_shuffled, &neg_shuffled, n_folds);
    assert(is_stratified_design(folds@, pos_shuffled@, neg_shuffled@, n_folds as int, 0));
    Ok(folds)
}

/// Block `rep` of a repeated design: the folds made for repeat `rep`.
pub open spec fn repeat_block(folds: Seq<Fold>, n: int, rep: int) -> Seq<Fold> {
    folds.subrange(rep * n, rep * n + n)
}

/// A copy of fold `f` marked with repeat number `r`.
fn with_repeat(f: &Fold, r: usize) -> (g: Fold)
    ensures
        fold_is(g, r as int, f.fold as int, f.test_idx@, f.train_idx@),
{
    Fold {
        repeat: r,
        fold: f.fold,
        train_idx: copy_indices(f.train_idx.as_slice()),
        test_idx: copy_indices(f.test_idx.as_slice()),
    }
}

/// Repeated stratified K-fold: generates repeats × k_folds folds.
///
/// Repeat `r` is a stratified K-fold design (`stratified_kfold`) shuffled
/// with seed `base_seed + r * 1_000_003` (wrapping) and numbered `r`; the
/// repeats follow one another. With no repeats the design is empty; otherwise
/// the errors are those of `stratified_kfold`.
pub fn repeated_stratified_kfold(y: &[i32], n_folds: usize, n_repeats: usize, base_seed: u64) -> (r: Result<Vec<Fold>, CvError>)
    requires
        n_repeats > 0 ==> (n_repeats - 1) * 1_000_003 <= u64::MAX,
        n_repeats > 0 && n_folds == 0 ==> !has_both_classes(y@),
    ensures
        n_repeats == 0 ==> (r matches Ok(folds) && folds@.len() == 0),
        n_repeats > 0 && y.len() < n_folds ==> r == Err::<Vec<Fold>, CvError>(
            CvError::TooFewSamples { n_samples: y.len(), n_folds },
        ),
        n_repeats > 0 && y.len() >= n_folds && !has_both_classes(y@) ==> r == Err::<Vec<Fold>, CvError>(
            CvError::MissingClass,
        ),
        n_repeats > 0 && y.len() >= n_folds && has_both_classes(y@) ==> (r matches Ok(folds) && {
            &&& folds@.len() == n_repeats * n_folds
            &&& forall|rep: int|
                0 <= rep < n_repeats ==> is_stratified_kfold(
                    #[trigger] repeat_block(folds@, n_folds as int, rep),
                    y@,
                    n_folds as int,
                    rep,
                )
            &&& forall|rep: int|
                0 <= rep < n_repeats ==> is_seeded_kfold(
                    #[trigger] repeat_block(folds@, n_folds as int, rep),
                    y@,
                    n_folds as int,
                    repeat_seed(base_seed, rep),
                    rep,
                )
        }),
{
    let mut all_folds: Vec<Fold> = Vec::new();
    let mut r: usize = 0;
    while r < n_repeats
        invariant
            r <= n_repeats,
            n_repeats > 0 ==> (n_repeats - 1) * 1_000_003 <= u64::MAX,
            n_repeats > 0 && n_folds == 0 ==> !has_both_classes(y@),
            r > 0 ==> y.len() >= n_folds && has_both_classes(y@),
            all_folds@.len() == r * n_folds,
            forall|rep: int|
                0 <= rep < r ==> is_stratified_kfold(
                    #[trigger] repeat_block(all_folds@, n_folds as int, rep),
                    y@,
                    n_folds as int,
                    rep,
                ),
            forall|rep: int|
                0 <= rep < r ==> is_seeded_kfold(
                    #[trigger] repeat_block(all_folds@, n_folds as int, rep),
                    y@,
                    n_folds as int,
                    repeat_seed(base_seed, rep),
                    rep,
                ),
        decreases n_repeats - r,
    {
        assert(r * 1_000_003 <= u64::MAX) by (nonlinear_arith)
            requires
                r < n_repeats,
                (n_repeats - 1) * 1_000_003 <= u64::MAX,
        ;
        let seed = base_seed.wrapping_add(r as u64 * 1_000_003);
        assert(seed == repeat_seed(base_seed, r as int));
        let folds = match stratified_kfold(y, n_folds, seed) {
            Ok(f) => f,
            Err(e) => {
                return Err(e);
            },
        };
        let ghost before = all_folds@;
        let mut i: usize = 0;
        while i < folds.len()
            invariant
                i <= folds.len(),
                folds@.len() == n_folds,
                all_folds@ == before + Seq::new(
                    i as nat,
                    |j: int| all_folds@[before.len() + j],
                ),
                all_folds@.len() == before.len() + i,
                forall|j: int|
                    0 <= j < i ==> fold_is(
                        #[trigger] all_folds@[before.len() + j],
                        r as int,
                        folds@[j].fold as int,
                        folds@[j].test_idx@,
                        folds@[j].train_idx@,
                    ),
            decreases folds.len() - i,
        {
            let g = with_repeat(&folds[i], r);
            all_folds.push(g);
            assert(all_folds@ =~= before + Seq::new(
                (i + 1) as nat,
                |j: int| all_folds@[before.len() + j],
            ));
            i = i + 1;
        }
        proof {
            assert(((r + 1) * n_folds) == r * n_folds + n_folds) by (nonlinear_arith);
            let block = repeat_block(all_folds@, n_folds as int, r as int);
            assert(block =~= all_folds@.subrange(before.len() as int, all_folds@.len() as int));
            let (p, q) = choose|p: Seq<usize>, q: Seq<usize>|
                is_permutation(p, labelled(y@, 1)) && is_permutation(q, labelled(y@, 0))
                    && is_stratified_design(folds@, p, q, n_folds as int, 0);
            assert forall|k: int| 0 <= k < n_folds implies fold_is(
                #[trigger] block[k],
                r as int,
                k,
                stratified_test(p, q, n_folds as int, k),
                stratified_train(p, q, n_folds as int, k),
            ) by {
                assert(block[k] == all_folds@[before.len() + k]);
                assert(fold_is(folds@[k], 0, k, stratified_test(p, q, n_folds as int, k), stratified_train(p, q, n_folds as int, k)));
            }
            assert(is_stratified_design(block, p, q, n_folds as int, r as int));
            let so = seeded_orders(y@, seed);
            assert forall|k: int| 0 <= k < n_folds implies fold_is(
                #[trigger] block[k],
                r as int,
                k,
                stratified_test(so.0, so.1, n_folds as int, k),
                stratified_train(so.0, so.1, n_folds as int, k),
            ) by {
                assert(block[k] == all_folds@[before.len() + k]);
                assert(fold_is(folds@[k], 0, k, stratified_test(so.0, so.1, n_folds as int, k), stratified_train(so.0, so.1, n_folds as int, k)));
            }
            assert(is_seeded_kfold(block, y@, n_folds as int, repeat_seed(base_seed, r as int), r as int));
            assert forall|rep: int| 0 <= rep < r + 1 implies is_stratified_kfold(
                #[trigger] repeat_block(all_folds@, n_folds as int, rep),
                y@,
                n_folds as int,
                rep,
            ) && is_seeded_kfold(
                repeat_block(all_folds@, n_folds as int, rep),
                y@,
                n_folds as int,
                repeat_seed(base_seed, rep),
                rep,
            ) by {
                if rep < r {
                    assert(rep * n_folds + n_folds <= r * n_folds) by (nonlinear_arith)
                        requires rep < r, n_folds >= 0;
                    assert(0 <= rep * n_folds) by (nonlinear_arith)
                        requires rep >= 0, n_folds >= 0;
                    assert(repeat_block(all_folds@, n_folds as int, rep) =~= repeat_block(before, n_folds as int, rep));
                }
            }
        }
        r = r + 1;
    }
    Ok(all_folds)
}

// ── Spatial group K-fold ─────────────────────────────────────────────────────

/// The cluster that the assignments `a[..m]` give sample `sid`: the last one
/// that names it.
pub open spec fn cluster_lookup(a: Seq<(String, usize)>, sid: Seq<char>, m: int) -> Option<usize>
    decreases m,
{
    if m <= 0 {
        None
    } else if a[m - 1].0@ == sid {
        Some(a[m - 1].1)
    } else {
        cluster_lookup(a, sid, m - 1)
    }
}

/// The cluster of sample `sid`; a sample without an assignment is in cluster 0.
pub open spec fn cluster_of(a: Seq<(String, usize)>, sid: Seq<char>) -> usize {
    match cluster_lookup(a, sid, a.len() as int) {
        Some(c) => c,
        None => 0,
    }
}

/// The cluster of each sample, by position.
pub open spec fn sample_clusters(ids: Seq<String>, a: Seq<(String, usize)>) -> Seq<usize> {
    Seq::new(ids.len(), |i: int| cluster_of(a, ids[i]@))
}

/// Some sample lies in cluster `c`.
pub open spec fn present(cids: Seq<usize>, c: int) -> bool {
    exists|i: int| 0 <= i < cids.len() && cids[i] == c
}

/// The number of non-empty clusters with an id below `c`: the position of
/// cluster `c` among the non-empty clusters.
pub open spec fn cluster_rank(cids: Seq<usize>, c: int) -> int
    decreases c,
{
    if c <= 0 {
        0
    } else {
        cluster_rank(cids, c - 1) + if present(cids, c - 1) {
            1int
        } else {
            0int
        }
    }
}

/// The samples `i < m` in cluster `c`, in increasing order.
pub open spec fn members_prefix(cids: Seq<usize>, c: int, m: int) -> Seq<usize>
    decreases m,
{
    if m <= 0 {
        Seq::empty()
    } else if cids[m - 1] == c {
        members_prefix(cids, c, m - 1).push((m - 1) as usize)
    } else {
        members_prefix(cids, c, m - 1)
    }
}

/// The samples in cluster `c`, in increasing order.
pub open spec fn members(cids: Seq<usize>, c: int) -> Seq<usize> {
    members_prefix(cids, c, cids.len() as int)
}

/// Group `f` built from the clusters below `c`: non-empty clusters are dealt
/// round-robin onto `n` groups in increasing cluster order.
pub open spec fn group_upto(cids: Seq<usize>, n: int, f: int, c: int) -> Seq<usize>
    decreases c,
{
    if c <= 0 {
        Seq::empty()
    } else if cluster_rank(cids, c - 1) % n == f {
        group_upto(cids, n, f, c - 1) + members(cids, c - 1)
    } else {
        group_upto(cids, n, f, c - 1)
    }
}

/// The test group of spatial fold `f`.
pub open spec fn spatial_group(cids: Seq<usize>, n: int, f: int) -> Seq<usize> {
    group_upto(cids, n, f, usize::MAX as int)
}

/// The test groups of the spatial folds, as a function of the fold index.
pub open spec fn spatial_groups(cids: Seq<usize>, n: int) -> spec_fn(int) -> Seq<usize> {
    |f: int| spatial_group(cids, n, f)
}

/// The training set of spatial fold `f`: every other group, in group order.
pub open spec fn spatial_train(cids: Seq<usize>, n: int, f: int) -> Seq<usize> {
    concat_except(spatial_groups(cids, n), f, n)
}

/// Spatial fold `f` has both a test and a training part.
pub open spec fn spatial_fold_usable(cids: Seq<usize>, n: int, f: int) -> bool {
    spatial_group(cids, n, f).len() > 0 && spatial_train(cids, n, f).len() > 0
}

/// The usable fold numbers below `m`, in increasing order.
pub open spec fn usable_folds(cids: Seq<usize>, n: int, m: int) -> Seq<int>
    decreases m,
{
    if m <= 0 {
        Seq::empty()
    } else if spatial_fold_usable(cids, n, m - 1) {
        usable_folds(cids, n, m - 1).push(m - 1)
    } else {
        usable_folds(cids, n, m - 1)
    }
}

/// `folds` is the spatial group K-fold design over clusters `cids`.
pub open spec fn is_spatial_design(folds: Seq<Fold>, cids: Seq<usize>, n: int) -> bool {
    let ks = usable_folds(cids, n, n);
    &&& folds.len() == ks.len()
    &&& forall|t: int|
        0 <= t < ks.len() ==> fold_is(
            #[trigger] folds[t],
            0,
            ks[t],
            spatial_group(cids, n, ks[t]),
            spatial_train(cids, n, ks[t]),
        )
}

proof fn lemma_members_absent(cids: Seq<usize>, c: int, m: int)
    requires
        0 <= m <= cids.len(),
        forall|i: int| 0 <= i < m ==> cids[i] != c,
    ensures
        members_prefix(cids, c, m) == Seq::<usize>::empty(),
    decreases m,
{
    if m > 0 {
        lemma_members_absent(cids, c, m - 1);
    }
}

/// Counting modulo `n`: the residue of `r + 1` follows from that of `r`.
pub proof fn lemma_mod_successor(r: int, n: int)
    requires
        r >= 0,
        n > 0,
    ensures
        (r + 1) % n == if r % n + 1 == n {
            0
        } else {
            r % n + 1
        },
{
    let q = r / n;
    let s = r % n;
    vstd::arithmetic::div_mod::lemma_fundamental_div_mod(r, n);
    if s + 1 == n {
        assert(r + 1 == (q + 1) * n + 0) by (nonlinear_arith)
            requires r == n * q + s, s + 1 == n;
        vstd::arithmetic::div_mod::lemma_fundamental_div_mod_converse(r + 1, n, q + 1, 0);
    } else {
        assert(r + 1 == q * n + (s + 1)) by (nonlinear_arith)
            requires r == n * q + s;
        vstd::arithmetic::div_mod::lemma_fundamental_div_mod_converse(r + 1, n, q, s + 1);
    }
}

/// Clusters with no sample change neither ranks nor groups.
proof fn lemma_skip_absent(cids: Seq<usize>, n: int, f: int, a: int, b: int)
    requires
        0 <= a <= b,
        forall|v: int| a <= v < b ==> !present(cids, v),
    ensures
        cluster_rank(cids, b) == cluster_rank(cids, a),
        group_upto(cids, n, f, b) == group_upto(cids, n, f, a),
    decreases b - a,
{
    if b > a {
        lemma_skip_absent(cids, n, f, a, b - 1);
        assert(!present(cids, b - 1));
        assert forall|i: int| 0 <= i < cids.len() implies cids[i] != b - 1 by {
            if cids[i] == b - 1 {
                assert(present(cids, b - 1));
            }
        }
        lemma_members_absent(cids, b - 1, cids.len() as int);
        assert(group_upto(cids, n, f, b) =~= group_upto(cids, n, f, b - 1));
    }
}

/// The samples in cluster `c`, in increasing order.
fn members_exec(cids: &Vec<usize>, c: usize) -> (r: Vec<usize>)
    ensures
        r@ == members(cids@, c as int),
{
    let mut r: Vec<usize> = Vec::new();
    let mut i: usize = 0;
    while i < cids.len()
        invariant
            i <= cids.len(),
            r@ == members_prefix(cids@, c as int, i as int),
        decreases cids.len() - i,
    {
        if cids[i] == c {
            r.push(i);
        }
        i = i + 1;
    }
    r
}

/// The smallest cluster id at least `lo` that some sample has.
fn min_present_from(cids: &Vec<usize>, lo: usize) -> (r: Option<usize>)
    ensures
        match r {
            Some(v) => v >= lo && present(cids@, v as int) && forall|w: int|
                lo <= w < v ==> !present(cids@, w),
            None => forall|w: int| w >= lo ==> !present(cids@, w),
        },
{
    let mut best: Option<usize> = None;
    let mut i: usize = 0;
    while i < cids.len()
        invariant
            i <= cids.len(),
            match best {
                Some(v) => v >= lo && present(cids@, v as int) && forall|j: int|
                    0 <= j < i && cids@[j] >= lo ==> cids@[j] >= v,
                None => forall|j: int| 0 <= j < i ==> cids@[j] < lo,
            },
        decreases cids.len() - i,
    {
        let c = cids[i];
        if c >= lo {
            match best {
                Some(v) => {
                    if c < v {
                        best = Some(c);
                    }
                },
                None => {
                    best = Some(c);
                },
            }
        }
        i = i + 1;
    }
    best
}

/// Test group `f` of the spatial design over `n` folds.
fn spatial_group_exec(cids: &Vec<usize>, n: usize, f: usize) -> (r: Vec<usize>)
    requires
        n > 0,
        forall|i: int| 0 <= i < cids.len() ==> cids@[i] < usize::MAX,
    ensures
        r@ == spatial_group(cids@, n as int, f as int),
{
    let mut out: Vec<usize> = Vec::new();
    let mut lo: usize = 0;
    let mut slot: usize = 0;
    proof {
        assert(cluster_rank(cids@, 0) == 0);
        vstd::arithmetic::div_mod::lemma_small_mod(0, n as nat);
    }
    loop
        invariant
            n > 0,
            forall|i: int| 0 <= i < cids.len() ==> cids@[i] < usize::MAX,
            slot == cluster_rank(cids@, lo as int) % (n as int),
            cluster_rank(cids@, lo as int) >= 0,
            out@ == group_upto(cids@, n as int, f as int, lo as int),
        decreases usize::MAX - lo,
    {
        match min_present_from(cids, lo) {
            None => {
                proof {
                    lemma_skip_absent(cids@, n as int, f as int, lo as int, usize::MAX as int);
                }
                return out;
            },
            Some(v) => {
                proof {
                    lemma_skip_absent(cids@, n as int, f as int, lo as int, v as int);
                    let i = choose|i: int| 0 <= i < cids.len() && cids@[i] == v;
                    assert(v < usize::MAX);
                    assert(cluster_rank(cids@, v + 1) == cluster_rank(cids@, v as int) + 1);
                    lemma_mod_successor(cluster_rank(cids@, v as int), n as int);
                }
                if slot == f {
                    let mut part = members_exec(cids, v);
                    out.append(&mut part);
                }
                slot = if slot + 1 == n {
                    0
                } else {
                    slot + 1
                };
                lo = v + 1;
            },
        }
    }
}

/// The cluster of each sample under the given assignments (0 when none).
fn clusters_of(sample_ids: &[String], cluster_assignments: &[(String, usize)]) -> (r: Vec<usize>)
    ensures
        r@ == sample_clusters(sample_ids@, cluster_assignments@),
{
    let mut r: Vec<usize> = Vec::new();
    let mut i: usize = 0;
    while i < sample_ids.len()
        invariant
            i <= sample_ids.len(),
            r@.len() == i,
            forall|j: int| 0 <= j < i ==> r@[j] == cluster_of(cluster_assignments@, #[trigger] sample_ids@[j]@),
        decreases sample_ids.len() - i,
    {
        let mut c: usize = 0;
        let mut j: usize = cluster_assignments.len();
        while j > 0
            invariant_except_break
                c == 0,
            invariant
                j <= cluster_assignments.len(),
                i < sample_ids.len(),
                cluster_lookup(cluster_assignments@, sample_ids@[i as int]@, cluster_assignments@.len() as int)
                    == cluster_lookup(cluster_assignments@, sample_ids@[i as int]@, j as int),
            ensures
                c == cluster_of(cluster_assignments@, sample_ids@[i as int]@),
            decreases j,
        {
            if cluster_assignments[j - 1].0 == sample_ids[i] {
                c = cluster_assignments[j - 1].1;
                break;
            }
            j = j - 1;
        }
        r.push(c);
        i = i + 1;
    }
    assert(r@ =~= sample_clusters(sample_ids@, cluster_assignments@));
    r
}

/// Spatial group K-fold: groups wells by spatial cluster.
///
/// Each sample's cluster is the last assignment naming it (cluster 0 if none).
/// The non-empty clusters, in increasing id order, are dealt round-robin onto
/// `n_folds` groups; fold `k` tests on group `k` and trains on the others.
/// Folds whose test or training part would be empty are left out.
pub fn spatial_group_kfold(sample_ids: &[String], cluster_assignments: &[(String, usize)], n_folds: usize) -> (r: Result<Vec<Fold>, CvError>)
    requires
        forall|j: int| 0 <= j < cluster_assignments.len() ==> (#[trigger] cluster_assignments@[j]).1 < usize::MAX,
        n_folds == 0 ==> sample_ids.len() == 0,
    ensures
        r matches Ok(folds) && is_spatial_design(
            folds@,
            sample_clusters(sample_ids@, cluster_assignments@),
            n_folds as int,
        ),
{
    let cids = clusters_of(sample_ids, cluster_assignments);
    let ghost cs = cids@;
    let ghost n = n_folds as int;
    proof {
        assert forall|i: int| 0 <= i < cids.len() implies cids@[i] < usize::MAX by {
            let sid = sample_ids@[i]@;
            let m = cluster_assignments@.len() as int;
            lemma_lookup_below_max(cluster_assignments@, sid, m);
        }
    }
    if n_folds == 0 {
        return Ok(Vec::new());
    }
    let mut groups: Vec<Vec<usize>> = Vec::new();
    let mut f: usize = 0;
    while f < n_folds
        invariant
            n == n_folds as int,
            n_folds > 0,
            cs == cids@,
            forall|i: int| 0 <= i < cids.len() ==> cids@[i] < usize::MAX,
            f <= n_folds,
            groups.len() == f,
            forall|j: int| 0 <= j < f ==> (#[trigger] groups@[j])@ == spatial_group(cs, n, j),
        decreases n_folds - f,
    {
        let g = spatial_group_exec(&cids, n_folds, f);
        groups.push(g);
        f = f + 1;
    }
    let mut folds: Vec<Fold> = Vec::new();
    let mut k: usize = 0;
    while k < n_folds
        invariant
            n == n_folds as int,
            groups.len() == n_folds,
            forall|j: int| 0 <= j < n_folds ==> (#[trigger] groups@[j])@ == spatial_group(cs, n, j),
            k <= n_folds,
            folds.len() == usable_folds(cs, n, k as int).len(),
            forall|t: int|
                0 <= t < usable_folds(cs, n, k as int).len() ==> fold_is(
                    #[trigger] folds@[t],
                    0,
                    usable_folds(cs, n, k as int)[t],
                    spatial_group(cs, n, usable_folds(cs, n, k as int)[t]),
                    spatial_train(cs, n, usable_folds(cs, n, k as int)[t]),
                ),
        decreases n_folds - k,
    {
        let test_idx = copy_indices(groups[k].as_slice());
        let train_idx = concat_except_exec(&groups, k);
        proof {
            lemma_concat_except_congruent(|j: int| groups@[j]@, spatial_groups(cs, n), k as int, n);
        }
        if test_idx.len() > 0 && train_idx.len() > 0 {
            folds.push(Fold { repeat: 0, fold: k, train_idx, test_idx });
        }
        k = k + 1;
    }
    Ok(folds)
}

// ── Checking a binary design ─────────────────────────────────────────────────

/// The number of entries of `idx[..m]` that point at a positive label.
pub open spec fn positives_prefix(y: Seq<i32>, idx: Seq<usize>, m: int) -> int
    decreases m,
{
    if m <= 0 {
        0
    } else {
        positives_prefix(y, idx, m - 1) + if y[idx[m - 1] as int] == 1 {
            1int
        } else {
            0int
        }
    }
}

/// The number of entries of `idx` that point at a positive label.
pub open spec fn positives(y: Seq<i32>, idx: Seq<usize>) -> int {
    positives_prefix(y, idx, idx.len() as int)
}

/// The number of the other entries of `idx`.
pub open spec fn negatives(y: Seq<i32>, idx: Seq<usize>) -> int {
    idx.len() - positives(y, idx)
}

/// Every index of the fold points into `y`.
pub open spec fn fold_in_range(f: Fold, n: int) -> bool {
    &&& forall|i: int| 0 <= i < f.train_idx@.len() ==> (#[trigger] f.train_idx@[i]) < n
    &&& forall|i: int| 0 <= i < f.test_idx@.len() ==> (#[trigger] f.test_idx@[i]) < n
}

/// Both the training and the test part of the fold hold both classes.
pub open spec fn fold_balanced(y: Seq<i32>, f: Fold) -> bool {
    &&& positives(y, f.train_idx@) > 0
    &&& negatives(y, f.train_idx@) > 0
    &&& positives(y, f.test_idx@) > 0
    &&& negatives(y, f.test_idx@) > 0
}

proof fn lemma_positives_bounded(y: Seq<i32>, idx: Seq<usize>, m: int)
    requires
        0 <= m <= idx.len(),
    ensures
        0 <= positives_prefix(y, idx, m) <= m,
    decreases m,
{
    if m > 0 {
        lemma_positives_bounded(y, idx, m - 1);
    }
}

/// Counts the positives and the negatives among the labels at `idx`.
fn class_counts(y: &[i32], idx: &[usize]) -> (r: (usize, usize))
    requires
        forall|i: int| 0 <= i < idx.len() ==> (#[trigger] idx@[i]) < y.len(),
    ensures
        r.0 == positives(y@, idx@),
        r.1 == negatives(y@, idx@),
{
    let mut pos: usize = 0;
    let mut i: usize = 0;
    while i < idx.len()
        invariant
            i <= idx.len(),
            forall|j: int| 0 <= j < idx.len() ==> (#[trigger] idx@[j]) < y.len(),
            pos == positives_prefix(y@, idx@, i as int),
            pos <= i,
        decreases idx.len() - i,
    {
        if y[idx[i]] == 1 {
            pos = pos + 1;
        }
        i = i + 1;
    }
    proof {
        lemma_positives_bounded(y@, idx@, idx.len() as int);
    }
    (pos, idx.len() - pos)
}

/// Validate that a binary-class CV design is usable and matches the declared
/// design. This prevents silent changes such as 4-fold spatial CV being stored
/// as if it were the configured 5-fold run.
///
/// Fails with `FoldCountMismatch` when the number of folds differs from the
/// expected one, and otherwise with `UnbalancedFold` for the first fold whose
/// training or test part lacks a class.
pub fn validate_binary_folds(folds: &[Fold], y: &[i32], expected_folds: usize, cv_mode: &str) -> (r: Result<(), CvError>)
    requires
        forall|t: int| 0 <= t < folds.len() ==> fold_in_range(#[trigger] folds@[t], y.len() as int),
    ensures
        folds.len() != expected_folds ==> (r matches Err(CvError::FoldCountMismatch { cv_mode: m, produced, requested })
            && m@ == cv_mode@ && produced == folds.len() && requested == expected_folds),
        folds.len() == expected_folds && (forall|t: int| 0 <= t < folds.len() ==> fold_balanced(y@, #[trigger] folds@[t]))
            ==> r is Ok,
        folds.len() == expected_folds && !(forall|t: int| 0 <= t < folds.len() ==> fold_balanced(y@, #[trigger] folds@[t]))
            ==> (r matches Err(CvError::UnbalancedFold { cv_mode: m, repeat, fold, train_pos, train_neg, test_pos, test_neg })
            && m@ == cv_mode@ && exists|t: int| {
                &&& 0 <= t < folds.len()
                &&& !fold_balanced(y@, #[trigger] folds@[t])
                &&& forall|u: int| 0 <= u < t ==> fold_balanced(y@, #[trigger] folds@[u])
                &&& repeat == folds@[t].repeat && fold == folds@[t].fold
                &&& train_pos == positives(y@, folds@[t].train_idx@)
                &&& train_neg == negatives(y@, folds@[t].train_idx@)
                &&& test_pos == positives(y@, folds@[t].test_idx@)
                &&& test_neg == negatives(y@, folds@[t].test_idx@)
            }),
{
    if folds.len() != expected_folds {
        return Err(
            CvError::FoldCountMismatch {
                cv_mode: crate::text::owned(cv_mode),
                produced: folds.len(),
                requested: expected_folds,
            },
        );
    }
    let mut t: usize = 0;
    while t < folds.len()
        invariant
            t <= folds.len(),
            folds.len() == expected_folds,
            forall|u: int| 0 <= u < folds.len() ==> fold_in_range(#[trigger] folds@[u], y.len() as int),
            forall|u: int| 0 <= u < t ==> fold_balanced(y@, #[trigger] folds@[u]),
        decreases folds.len() - t,
    {
        let fold = &folds[t];
        proof {
            assert(fold_in_range(folds@[t as int], y.len() as int));
        }
        let (train_pos, train_neg) = class_counts(y, fold.train_idx.as_slice());
        let (test_pos, test_neg) = class_counts(y, fold.test_idx.as_slice());
        if train_pos == 0 || train_neg == 0 || test_pos == 0 || test_neg == 0 {
            return Err(
                CvError::UnbalancedFold {
                    cv_mode: crate::text::owned(cv_mode),
                    repeat: fold.repeat,
                    fold: fold.fold,
                    train_pos,
                    train_neg,
                    test_pos,
                    test_neg,
                },
            );
        }
        t = t + 1;
    }
    Ok(())
}

// ── Inner CV and subsets ─────────────────────────────────────────────────────

/// Simple inner stratified K-fold for a training-fold subset.
///
/// Needs at least two samples per inner fold; otherwise the design is that
/// of `stratified_kfold`.
pub fn inner_cv_folds(y_train: &[i32], n_inner: usize, seed: u64) -> (r: Result<Vec<Fold>, CvError>)
    requires
        n_inner * 2 <= usize::MAX,
        n_inner == 0 ==> !has_both_classes(y_train@),
    ensures
        y_train.len() < n_inner * 2 ==> r == Err::<Vec<Fold>, CvError>(
            CvError::TooFewInnerSamples { n_inner },
        ),
        y_train.len() >= n_inner * 2 && !has_both_classes(y_train@) ==> r == Err::<Vec<Fold>, CvError>(
            CvError::MissingClass,
        ),
        y_train.len() >= n_inner * 2 && has_both_classes(y_train@) ==> (r matches Ok(folds)
            && is_seeded_kfold(folds@, y_train@, n_inner as int, seed, 0)
            && is_stratified_kfold(folds@, y_train@, n_inner as int, 0)),
{
    if y_train.len() < n_inner * 2 {
        return Err(CvError::TooFewInnerSamples { n_inner });
    }
    stratified_kfold(y_train, n_inner, seed)
}

/// Extract a sub-vector given row indices.
pub fn subset_y(y: &[i32], idx: &[usize]) -> (r: Vec<i32>)
    requires
        forall|i: int| 0 <= i < idx.len() ==> (#[trigger] idx@[i]) < y.len(),
    ensures
        r@ == idx@.map_values(|i: usize| y@[i as int]),
{
    let mut r: Vec<i32> = Vec::new();
    let mut k: usize = 0;
    while k < idx.len()
        invariant
            k <= idx.len(),
            forall|i: int| 0 <= i < idx.len() ==> (#[trigger] idx@[i]) < y.len(),
            r@ == idx@.take(k as int).map_values(|i: usize| y@[i as int]),
        decreases idx.len() - k,
    {
        r.push(y[idx[k]]);
        assert(idx@.take(k + 1) =~= idx@.take(k as int).push(idx@[k as int]));
        assert(idx@.take(k + 1).map_values(|i: usize| y@[i as int]) =~= idx@.take(k as int).map_values(|i: usize| y@[i as int]).push(y@[idx@[k as int] as int]));
        k = k + 1;
    }
    assert(idx@.take(idx.len() as int) =~= idx@);
    r
}

/// Extract the sample ids at the given row indices.
pub fn subset_ids(ids: &[String], idx: &[usize]) -> (r: Vec<String>)
    requires
        forall|i: int| 0 <= i < idx.len() ==> (#[trigger] idx@[i]) < ids.len(),
    ensures
        r@.len() == idx@.len(),
        forall|k: int| 0 <= k < idx.len() ==> (#[trigger] r@[k])@ == ids@[idx@[k] as int]@,
{
    let mut r: Vec<String> = Vec::new();
    let mut k: usize = 0;
    while k < idx.len()
        invariant
            k <= idx.len(),
            forall|i: int| 0 <= i < idx.len() ==> (#[trigger] idx@[i]) < ids.len(),
            r@.len() == k,
            forall|j: int| 0 <= j < k ==> (#[trigger] r@[j])@ == ids@[idx@[j] as int]@,
        decreases idx.len() - k,
    {
        r.push(ids[idx[k]].clone());
        k = k + 1;
    }
    r
}

proof fn lemma_lookup_below_max(a: Seq<(String, usize)>, sid: Seq<char>, m: int)
    requires
        0 <= m <= a.len(),
        forall|j: int| 0 <= j < a.len() ==> (#[trigger] a[j]).1 < usize::MAX,
    ensures
        match cluster_lookup(a, sid, m) {
            Some(c) => c < usize::MAX,
            None => true,
        },
    decreases m,
{
    if m > 0 {
        lemma_lookup_below_max(a, sid, m - 1);
    }
}

} // verus!
