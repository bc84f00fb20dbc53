use parquet_native::column::{Batch, ChunkData, ColumnChunk, HostArray, NativeColumn, StreamState};
use parquet_native::error::ParquetNativeError;

fn chunk(name: &str, rows: usize, data: ChunkData) -> ColumnChunk {
    ColumnChunk { name: name.to_string(), rows, data }
}

fn id_batch(values: Vec<i32>) -> Batch {
    let rows = values.len();
    Batch {
        columns: vec![
            chunk("id", rows, ChunkData::Int32(vec![values])),
            chunk("score", rows, ChunkData::Float64(vec![vec![0; rows]])),
        ],
    }
}

#[test]
fn every_supported_kind_is_flattened_to_its_host_array() {
    assert_eq!(
        chunk("c", 2, ChunkData::Int8(vec![vec![-1], vec![2]])).flatten(),
        Ok(Some(HostArray::Byte(vec![-1, 2])))
    );
    assert_eq!(
        chunk("c", 2, ChunkData::Int16(vec![vec![-1, 2]])).flatten(),
        Ok(Some(HostArray::Short(vec![-1, 2])))
    );
    assert_eq!(
        chunk("c", 3, ChunkData::Int32(vec![vec![1], vec![2, 3]])).flatten(),
        Ok(Some(HostArray::Int(vec![1, 2, 3])))
    );
    assert_eq!(
        chunk("c", 1, ChunkData::Int64(vec![vec![i64::MIN]])).flatten(),
        Ok(Some(HostArray::Long(vec![i64::MIN])))
    );
    assert_eq!(
        chunk("c", 1, ChunkData::Float32(vec![vec![1.5f32.to_bits()]])).flatten(),
        Ok(Some(HostArray::Float(vec![1.5f32.to_bits()])))
    );
    assert_eq!(
        chunk("c", 2, ChunkData::Float64(vec![vec![3.5f64.to_bits(), 7.25f64.to_bits()]])).flatten(),
        Ok(Some(HostArray::Double(vec![3.5f64.to_bits(), 7.25f64.to_bits()])))
    );
    assert_eq!(
        chunk("c", 3, ChunkData::Boolean(vec![vec![0b0000_0101]])).flatten(),
        Ok(Some(HostArray::Boolean(vec![1, 0, 1])))
    );
}

#[test]
fn an_unsupported_column_is_skipped() {
    assert_eq!(chunk("c", 4, ChunkData::Unsupported).flatten(), Ok(None));
}

#[test]
fn a_boolean_column_with_too_few_bits_is_refused() {
    let r = chunk("c", 9, ChunkData::Boolean(vec![vec![0xff]])).flatten();
    assert_eq!(
        r,
        Err(ParquetNativeError::Arrow("bit buffer is too short for the row count".to_string()))
    );
}

#[test]
fn a_column_is_found_by_its_name() {
    let batch = id_batch(vec![1, 2]);
    assert_eq!(batch.column_by_name(&"score".to_string()).unwrap().name, "score");
    assert_eq!(batch.column_by_name(&"id".to_string()), Some(&batch.columns[0]));
    assert_eq!(batch.column_by_name(&"rank".to_string()), None);
}

#[test]
fn the_first_of_two_columns_with_one_name_is_found() {
    let batch = Batch {
        columns: vec![
            chunk("x", 1, ChunkData::Int32(vec![vec![1]])),
            chunk("x", 1, ChunkData::Int32(vec![vec![2]])),
        ],
    };
    assert_eq!(batch.column_by_name(&"x".to_string()), Some(&batch.columns[0]));
}

#[test]
fn a_stream_starts_open() {
    let column = NativeColumn::new("id".to_string());
    assert_eq!(column.current_state(), StreamState::Open);
    assert_eq!(column.column_name(), "id");
}

#[test]
fn a_stream_walks_from_open_to_active_to_exhausted() {
    let mut column = NativeColumn::new("id".to_string());
    let first = column.next(Some(Ok(id_batch(vec![1, 2]))));
    assert_eq!(first, Some(Ok(Some(HostArray::Int(vec![1, 2])))));
    assert_eq!(column.current_state(), StreamState::Active);
    let second = column.next(Some(Ok(id_batch(vec![3]))));
    assert_eq!(second, Some(Ok(Some(HostArray::Int(vec![3])))));
    assert_eq!(column.current_state(), StreamState::Active);
    assert_eq!(column.next(None), None);
    assert_eq!(column.current_state(), StreamState::Exhausted);
}

#[test]
fn an_empty_file_exhausts_an_open_stream() {
    let mut column = NativeColumn::new("id".to_string());
    assert_eq!(column.next(None), None);
    assert_eq!(column.current_state(), StreamState::Exhausted);
}

#[test]
fn an_exhausted_stream_stays_exhausted() {
    let mut column = NativeColumn::new("id".to_string());
    assert_eq!(column.next(None), None);
    assert_eq!(column.next(Some(Ok(id_batch(vec![1])))), None);
    assert_eq!(column.next(Some(Err(ParquetNativeError::Arrow("late".to_string())))), None);
    assert_eq!(column.current_state(), StreamState::Exhausted);
}

#[test]
fn a_missing_column_is_a_key_not_found_error() {
    let mut column = NativeColumn::new("rank".to_string());
    let r = column.next(Some(Ok(id_batch(vec![1]))));
    assert_eq!(r, Some(Err(ParquetNativeError::KeyNotFound)));
    assert_eq!(column.current_state(), StreamState::Active);
}

#[test]
fn a_failure_of_the_engine_is_passed_on() {
    let mut column = NativeColumn::new("id".to_string());
    let r = column.next(Some(Err(ParquetNativeError::Arrow("Parquet error: bad page".to_string()))));
    assert_eq!(r, Some(Err(ParquetNativeError::Arrow("Parquet error: bad page".to_string()))));
    assert_eq!(column.current_state(), StreamState::Open);
}

#[test]
fn a_stream_over_an_unsupported_column_gives_no_array() {
    let mut column = NativeColumn::new("label".to_string());
    let batch = Batch { columns: vec![chunk("label", 2, ChunkData::Unsupported)] };
    assert_eq!(column.next(Some(Ok(batch))), Some(Ok(None)));
    assert_eq!(column.current_state(), StreamState::Active);
    assert_eq!(column.next(None), None);
}

#[test]
fn the_arrays_of_a_stream_hold_every_row_in_order() {
    let mut column = NativeColumn::new("id".to_string());
    let batches = vec![vec![1, 2, 3], vec![], vec![4], vec![5, 6]];
    let mut pulled = batches.clone().into_iter();
    let mut seen: Vec<i32> = Vec::new();
    loop {
        match column.next(pulled.next().map(|values| Ok(id_batch(values)))) {
            Some(Ok(Some(HostArray::Int(values)))) => seen.extend(values),
            None => break,
            other => panic!("unexpected {:?}", other),
        }
    }
    assert_eq!(seen, vec![1, 2, 3, 4, 5, 6]);
    assert_eq!(seen.len(), batches.iter().map(|b| b.len()).sum::<usize>());
}
