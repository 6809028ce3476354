use ornithology::fetch::Fetcher;

#[test]
fn end_to_end_250_ids_make_3_batches_and_merge_250_records() {
    let ids: Vec<u64> = (1..=250).collect();
    let mut f: Fetcher<u64> = Fetcher::new(&ids, 100, 900, 900);
    let mut dispatched: Vec<(usize, Vec<u8>)> = Vec::new();
    let mut now = 0;
    while let Some(d) = f.try_dispatch(now) {
        dispatched.push(d);
        now += 1;
    }
    assert_eq!(dispatched.len(), 3);
    let sizes: Vec<usize> = dispatched
        .iter()
        .map(|(_, b)| String::from_utf8(b.clone()).unwrap().split(',').count())
        .collect();
    assert_eq!(sizes, vec![100, 100, 50]);

    // Completions arrive out of submission order; the merge keeps
    // completion order, and every identifier shows up exactly once.
    let decoded: Vec<Vec<u64>> = dispatched
        .iter()
        .map(|(_, b)| {
            String::from_utf8(b.clone())
                .unwrap()
                .split(',')
                .map(|p| p.parse().unwrap())
                .collect()
        })
        .collect();
    f.on_batch_done(decoded[2].clone());
    f.on_batch_done(decoded[0].clone());
    f.on_batch_done(decoded[1].clone());
    assert!(f.is_done());
    let merged = f.into_results().unwrap();
    assert_eq!(merged.len(), 250);
    let expected: Vec<u64> = decoded[2]
        .iter()
        .chain(decoded[0].iter())
        .chain(decoded[1].iter())
        .copied()
        .collect();
    assert_eq!(merged, expected);
    let mut sorted = merged.clone();
    sorted.sort_unstable();
    sorted.dedup();
    assert_eq!(sorted.len(), 250);
}

#[test]
fn dispatch_respects_the_budget_within_a_window() {
    let ids: Vec<u64> = (0..50).collect();
    let mut f: Fetcher<u64> = Fetcher::new(&ids, 10, 2, 100);
    assert!(f.try_dispatch(0).is_some());
    assert!(f.try_dispatch(1).is_some());
    assert!(f.try_dispatch(2).is_none());
    assert!(f.try_dispatch(99).is_none());
    assert!(f.try_dispatch(102).is_some());
}

#[test]
fn a_failed_batch_discards_all_results() {
    let ids: Vec<u64> = (0..30).collect();
    let mut f: Fetcher<u64> = Fetcher::new(&ids, 10, 900, 900);
    let _ = f.try_dispatch(0).unwrap();
    let _ = f.try_dispatch(1).unwrap();
    let _ = f.try_dispatch(2).unwrap();
    f.on_batch_done(vec![1, 2, 3]);
    f.on_batch_failed();
    f.on_batch_done(vec![4, 5, 6]);
    assert!(f.is_done());
    assert!(f.into_results().is_none());
}

#[test]
fn batch_payloads_preserve_input_order() {
    let ids: Vec<u64> = vec![5, 4, 3, 2, 1];
    let mut f: Fetcher<u64> = Fetcher::new(&ids, 2, 900, 900);
    let (_, b0) = f.try_dispatch(0).unwrap();
    let (_, b1) = f.try_dispatch(1).unwrap();
    let (_, b2) = f.try_dispatch(2).unwrap();
    assert_eq!(b0, b"5,4".to_vec());
    assert_eq!(b1, b"3,2".to_vec());
    assert_eq!(b2, b"1".to_vec());
}
