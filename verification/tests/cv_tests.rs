use groundwater_virtual_screening::cv::{
    inner_cv_folds, repeated_stratified_kfold, spatial_group_kfold, stratified_kfold, subset_ids, subset_y,
    validate_binary_folds, CvError, Fold,
};

fn labels() -> Vec<i32> {
    vec![1, 0, 0, 1, 0, 0, 1, 0, 0, 0, 1, 0]
}

fn sorted(mut v: Vec<usize>) -> Vec<usize> {
    v.sort();
    v
}

#[test]
fn stratified_tests_partition_the_samples() {
    let y = labels();
    let folds = stratified_kfold(&y, 3, 42).unwrap();
    assert_eq!(folds.len(), 3);
    let mut all_test: Vec<usize> = Vec::new();
    for (k, f) in folds.iter().enumerate() {
        assert_eq!(f.fold, k);
        assert_eq!(f.repeat, 0);
        let mut union = f.test_idx.clone();
        union.extend(f.train_idx.iter().copied());
        assert_eq!(sorted(union), (0..y.len()).collect::<Vec<_>>());
        all_test.extend(f.test_idx.iter().copied());
    }
    assert_eq!(sorted(all_test), (0..y.len()).collect::<Vec<_>>());
}

#[test]
fn stratified_folds_balance_each_class() {
    let y = labels();
    let folds = stratified_kfold(&y, 3, 7).unwrap();
    let pos: Vec<usize> = folds.iter().map(|f| f.test_idx.iter().filter(|&&i| y[i] == 1).count()).collect();
    let neg: Vec<usize> = folds.iter().map(|f| f.test_idx.iter().filter(|&&i| y[i] == 0).count()).collect();
    // four positives dealt onto three folds, eight negatives likewise
    assert_eq!(pos, vec![2, 1, 1]);
    assert_eq!(neg, vec![3, 3, 2]);
}

#[test]
fn stratified_kfold_is_reproducible_for_a_seed() {
    let y = labels();
    let a = stratified_kfold(&y, 4, 2024).unwrap();
    let b = stratified_kfold(&y, 4, 2024).unwrap();
    for (fa, fb) in a.iter().zip(b.iter()) {
        assert_eq!(fa.test_idx, fb.test_idx);
        assert_eq!(fa.train_idx, fb.train_idx);
    }
}

#[test]
fn stratified_kfold_rejects_fewer_samples_than_folds() {
    let r = stratified_kfold(&[1, 0], 3, 1);
    match r {
        Err(e) => {
            assert!(matches!(e, CvError::TooFewSamples { n_samples: 2, n_folds: 3 }));
            assert_eq!(e.message(), "n_samples (2) < n_folds (3)");
        }
        Ok(_) => panic!("expected an error"),
    }
}

#[test]
fn stratified_kfold_needs_both_classes() {
    match stratified_kfold(&[0, 0, 0, 0], 2, 1) {
        Err(e) => {
            assert!(matches!(e, CvError::MissingClass));
            assert_eq!(e.message(), "Stratified CV requires at least one positive and one negative sample");
        }
        Ok(_) => panic!("expected an error"),
    }
}

#[test]
fn repeated_kfold_numbers_the_repeats() {
    let y = labels();
    let folds = repeated_stratified_kfold(&y, 3, 2, 42).unwrap();
    assert_eq!(folds.len(), 6);
    let ids: Vec<(usize, usize)> = folds.iter().map(|f| (f.repeat, f.fold)).collect();
    assert_eq!(ids, vec![(0, 0), (0, 1), (0, 2), (1, 0), (1, 1), (1, 2)]);
    // the first repeat is the plain stratified design with the base seed
    let first = stratified_kfold(&y, 3, 42).unwrap();
    for k in 0..3 {
        assert_eq!(folds[k].test_idx, first[k].test_idx);
    }
    // the second uses the base seed plus 1_000_003
    let second = stratified_kfold(&y, 3, 42 + 1_000_003).unwrap();
    for k in 0..3 {
        assert_eq!(folds[3 + k].test_idx, second[k].test_idx);
    }
}

#[test]
fn repeated_kfold_with_no_repeats_is_empty() {
    let folds = repeated_stratified_kfold(&labels(), 3, 0, 1).unwrap();
    assert!(folds.is_empty());
}

fn ids(names: &[&str]) -> Vec<String> {
    names.iter().map(|s| s.to_string()).collect()
}

fn assignments() -> Vec<(String, usize)> {
    vec![
        ("s0".to_string(), 0),
        ("s1".to_string(), 0),
        ("s2".to_string(), 1),
        ("s3".to_string(), 1),
        ("s4".to_string(), 2),
        ("s5".to_string(), 3),
    ]
}

#[test]
fn spatial_folds_merge_clusters_round_robin() {
    let samples = ids(&["s0", "s1", "s2", "s3", "s4", "s5"]);
    let folds = spatial_group_kfold(&samples, &assignments(), 2).unwrap();
    assert_eq!(folds.len(), 2);
    assert_eq!(folds[0].test_idx, vec![0, 1, 4]);
    assert_eq!(folds[0].train_idx, vec![2, 3, 5]);
    assert_eq!(folds[1].test_idx, vec![2, 3, 5]);
    assert_eq!(folds[1].train_idx, vec![0, 1, 4]);
}

#[test]
fn spatial_folds_keep_a_cluster_on_one_side() {
    let samples = ids(&["s0", "s1", "s2", "s3", "s4", "s5"]);
    let folds = spatial_group_kfold(&samples, &assignments(), 3).unwrap();
    for f in &folds {
        let in_test = |i: usize| f.test_idx.contains(&i);
        assert_eq!(in_test(0), in_test(1));
        assert_eq!(in_test(2), in_test(3));
    }
}

#[test]
fn spatial_folds_drop_empty_folds() {
    let samples = ids(&["s0", "s1", "s2", "s3", "s4", "s5"]);
    let folds = spatial_group_kfold(&samples, &assignments(), 5).unwrap();
    assert_eq!(folds.len(), 4);
    let numbers: Vec<usize> = folds.iter().map(|f| f.fold).collect();
    assert_eq!(numbers, vec![0, 1, 2, 3]);
}

#[test]
fn spatial_folds_put_unknown_samples_in_cluster_zero() {
    let samples = ids(&["s0", "zz", "s2"]);
    let folds = spatial_group_kfold(&samples, &assignments(), 2).unwrap();
    assert_eq!(folds[0].test_idx, vec![0, 1]);
    assert_eq!(folds[1].test_idx, vec![2]);
}

#[test]
fn validate_reports_a_fold_count_mismatch() {
    let y = vec![1, 0, 1, 0];
    let folds = vec![Fold { repeat: 0, fold: 0, train_idx: vec![0, 1], test_idx: vec![2, 3] }];
    match validate_binary_folds(&folds, &y, 5, "Spatial_Group_CV") {
        Err(e) => {
            assert_eq!(e.message(), "Spatial_Group_CV produced 1 usable folds, but 5 were requested");
        }
        Ok(()) => panic!("expected an error"),
    }
}

#[test]
fn validate_reports_the_first_unbalanced_fold() {
    let y = vec![1, 0, 1, 0, 0, 0];
    let folds = vec![
        Fold { repeat: 0, fold: 0, train_idx: vec![0, 1, 4], test_idx: vec![2, 3] },
        Fold { repeat: 0, fold: 1, train_idx: vec![0, 2, 3], test_idx: vec![4, 5] },
    ];
    match validate_binary_folds(&folds, &y, 2, "Stratified_Nested_CV") {
        Err(CvError::UnbalancedFold { repeat, fold, train_pos, train_neg, test_pos, test_neg, .. }) => {
            assert_eq!((repeat, fold), (0, 1));
            assert_eq!((train_pos, train_neg, test_pos, test_neg), (2, 1, 0, 2));
        }
        _ => panic!("expected an unbalanced fold"),
    }
    let e = validate_binary_folds(&folds, &y, 2, "Stratified_Nested_CV").unwrap_err();
    assert_eq!(
        e.message(),
        "Stratified_Nested_CV repeat 0 fold 1 is not class-balanced enough: train_pos=2, train_neg=1, test_pos=0, test_neg=2"
    );
}

#[test]
fn validate_accepts_balanced_folds() {
    let y = labels();
    let folds = repeated_stratified_kfold(&y, 3, 2, 9).unwrap();
    assert!(validate_binary_folds(&folds, &y, 6, "Stratified_Nested_CV").is_ok());
}

#[test]
fn inner_folds_need_two_samples_per_fold() {
    match inner_cv_folds(&[1, 0, 1, 0, 1], 3, 5) {
        Err(e) => {
            assert!(matches!(e, CvError::TooFewInnerSamples { n_inner: 3 }));
            assert_eq!(e.message(), "Too few training samples for 3 inner folds");
        }
        Ok(_) => panic!("expected an error"),
    }
    let folds = inner_cv_folds(&[1, 0, 1, 0, 1, 0], 3, 5).unwrap();
    assert_eq!(folds.len(), 3);
}

#[test]
fn subsets_pick_rows_in_index_order() {
    assert_eq!(subset_y(&[5, 6, 7, 8], &[3, 0, 3]), vec![8, 5, 8]);
    let names = ids(&["a", "b", "c"]);
    assert_eq!(subset_ids(&names, &[2, 1]), ids(&["c", "b"]));
}

#[test]
fn inner_folds_equal_the_plain_split_for_the_seed() {
    let y = labels();
    let inner = inner_cv_folds(&y, 3, 77).unwrap();
    let plain = stratified_kfold(&y, 3, 77).unwrap();
    for (a, b) in inner.iter().zip(plain.iter()) {
        assert_eq!((a.repeat, a.fold), (b.repeat, b.fold));
        assert_eq!(a.test_idx, b.test_idx);
        assert_eq!(a.train_idx, b.train_idx);
    }
}

#[test]
fn repeats_wrap_their_seeds() {
    let y = labels();
    let base = u64::MAX - 5;
    let folds = repeated_stratified_kfold(&y, 3, 2, base).unwrap();
    let second = stratified_kfold(&y, 3, base.wrapping_add(1_000_003)).unwrap();
    for k in 0..3 {
        assert_eq!(folds[3 + k].repeat, 1);
        assert_eq!(folds[3 + k].test_idx, second[k].test_idx);
        assert_eq!(folds[3 + k].train_idx, second[k].train_idx);
    }
}
