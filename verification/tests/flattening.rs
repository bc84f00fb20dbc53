use parquet_native::error::ParquetNativeError;
use parquet_native::flatten::{concat_buffers, concat_buffers_bool};

const SHORT: &str = "bit buffer is too short for the row count";

#[test]
fn runs_are_joined_in_order() {
    let runs = vec![vec![1i32, 2], vec![], vec![3], vec![4, 5, 6]];
    assert_eq!(concat_buffers(&runs), vec![1, 2, 3, 4, 5, 6]);
}

#[test]
fn no_runs_give_no_elements() {
    let runs: Vec<Vec<i64>> = Vec::new();
    assert!(concat_buffers(&runs).is_empty());
    let empty_runs: Vec<Vec<i64>> = vec![vec![], vec![]];
    assert!(concat_buffers(&empty_runs).is_empty());
}

#[test]
fn joining_keeps_every_element() {
    let runs = vec![vec![7u64; 3], vec![8u64; 5], vec![9u64; 2]];
    let joined = concat_buffers(&runs);
    assert_eq!(joined.len(), 10);
    assert_eq!(joined[2], 7);
    assert_eq!(joined[3], 8);
    assert_eq!(joined[8], 9);
}

#[test]
fn joining_the_runs_of_two_batches_is_joining_their_results() {
    let first = vec![vec![1i16, 2], vec![3]];
    let second = vec![vec![4i16], vec![5, 6]];
    let mut both = first.clone();
    both.extend(second.clone());
    let mut expected = concat_buffers(&first);
    expected.extend(concat_buffers(&second));
    assert_eq!(concat_buffers(&both), expected);
}

#[test]
fn eight_packed_booleans_expand_bit_for_bit() {
    // true, false, true, false, false, false, false, false: least significant bit first
    let runs = vec![vec![0b0000_0101u8]];
    assert_eq!(concat_buffers_bool(&runs, 8), Ok(vec![1, 0, 1, 0, 0, 0, 0, 0]));
}

#[test]
fn only_the_row_count_is_expanded() {
    let runs = vec![vec![0b1111_1111u8]];
    assert_eq!(concat_buffers_bool(&runs, 3), Ok(vec![1, 1, 1]));
    assert_eq!(concat_buffers_bool(&runs, 0), Ok(vec![]));
}

#[test]
fn bits_run_on_across_bytes_and_runs() {
    let runs = vec![vec![0b1000_0000u8], vec![0b0000_0001u8, 0b0000_0010u8]];
    assert_eq!(
        concat_buffers_bool(&runs, 18),
        Ok(vec![0, 0, 0, 0, 0, 0, 0, 1, 1, 0, 0, 0, 0, 0, 0, 0, 0, 1])
    );
}

#[test]
fn too_few_bits_are_refused() {
    let runs = vec![vec![0u8]];
    assert_eq!(concat_buffers_bool(&runs, 9), Err(ParquetNativeError::Arrow(SHORT.to_string())));
    let none: Vec<Vec<u8>> = Vec::new();
    assert_eq!(concat_buffers_bool(&none, 1), Err(ParquetNativeError::Arrow(SHORT.to_string())));
    assert_eq!(concat_buffers_bool(&none, 0), Ok(vec![]));
}

#[test]
fn exactly_enough_bits_are_accepted() {
    let runs = vec![vec![0b0101_0101u8, 0b0000_0001u8]];
    assert_eq!(
        concat_buffers_bool(&runs, 16),
        Ok(vec![1, 0, 1, 0, 1, 0, 1, 0, 1, 0, 0, 0, 0, 0, 0, 0])
    );
    assert_eq!(concat_buffers_bool(&runs, 17), Err(ParquetNativeError::Arrow(SHORT.to_string())));
}

#[test]
fn expansion_differs_from_the_packed_bytes() {
    let runs = vec![vec![0b0000_0110u8]];
    let out = concat_buffers_bool(&runs, 8).unwrap();
    assert_ne!(out, vec![0b0000_0110u8]);
    assert_eq!(out, vec![0, 1, 1, 0, 0, 0, 0, 0]);
}
