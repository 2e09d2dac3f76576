use meili_notes::chunk::{chunks, InvalidChunkSize};

#[test]
fn chunks_cover_input_in_order() {
    let items: Vec<u32> = (0..10).collect();
    let c = chunks(items.clone(), 3).unwrap();
    assert_eq!(c.len(), 4);
    assert_eq!(c, vec![vec![0, 1, 2], vec![3, 4, 5], vec![6, 7, 8], vec![9]]);
    let joined: Vec<u32> = c.into_iter().flatten().collect();
    assert_eq!(joined, items);
}

#[test]
fn chunks_exact_multiple() {
    let c = chunks(vec![1, 2, 3, 4], 2).unwrap();
    assert_eq!(c, vec![vec![1, 2], vec![3, 4]]);
}

#[test]
fn chunks_larger_than_input() {
    let c = chunks(vec!['a', 'b'], 19456).unwrap();
    assert_eq!(c, vec![vec!['a', 'b']]);
}

#[test]
fn chunks_of_nothing() {
    let c = chunks(Vec::<u8>::new(), 5).unwrap();
    assert!(c.is_empty());
}

#[test]
fn chunk_size_zero_refused() {
    assert_eq!(chunks(vec![1, 2, 3], 0), Err(InvalidChunkSize));
}
