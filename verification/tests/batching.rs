use ornithology::batch::{join_ids, make_batches, u64_to_digits};

#[test]
fn partition_250_by_100_gives_3_batches() {
    let ids: Vec<u64> = (0..250).collect();
    let batches = make_batches(&ids, 100);
    assert_eq!(batches.len(), 3);
    assert_eq!(batches[0].len(), 100);
    assert_eq!(batches[1].len(), 100);
    assert_eq!(batches[2].len(), 50);
    let flat: Vec<u64> = batches.iter().flatten().copied().collect();
    assert_eq!(flat, ids);
}

#[test]
fn batch_count_is_the_ceiling() {
    let none: Vec<u64> = Vec::new();
    assert_eq!(make_batches(&none, 100).len(), 0);
    let one: Vec<u64> = (0..100).collect();
    assert_eq!(make_batches(&one, 100).len(), 1);
    let two: Vec<u64> = (0..101).collect();
    assert_eq!(make_batches(&two, 100).len(), 2);
}

#[test]
fn batch_boundaries_preserve_order() {
    let ids: Vec<u64> = vec![9, 8, 7, 6, 5];
    let batches = make_batches(&ids, 2);
    assert_eq!(batches, vec![vec![9, 8], vec![7, 6], vec![5]]);
}

#[test]
fn join_is_comma_separated_without_edge_separators() {
    let ids: Vec<u64> = vec![1, 23, 456];
    let joined = join_ids(&ids);
    assert_eq!(joined, b"1,23,456".to_vec());
    assert_ne!(joined[0], b',');
    assert_ne!(joined[joined.len() - 1], b',');
}

#[test]
fn join_of_one_and_of_none() {
    assert_eq!(join_ids(&vec![42u64]), b"42".to_vec());
    let none: Vec<u64> = Vec::new();
    assert_eq!(join_ids(&none), Vec::<u8>::new());
}

#[test]
fn digits_of_extremes() {
    assert_eq!(u64_to_digits(0), b"0".to_vec());
    assert_eq!(u64_to_digits(u64::MAX), b"18446744073709551615".to_vec());
}
