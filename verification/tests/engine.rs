use std::sync::Arc;

use arrow_array::{
    new_empty_array, Array, ArrayRef, BooleanArray, Float32Array, Float64Array, Int16Array,
    Int32Array, Int64Array, Int8Array, RecordBatch, StringArray, UInt16Array,
};
use arrow_schema::{DataType, Field as EngineField, Schema as EngineSchema};
use bytes::Bytes;
use parquet::arrow::arrow_reader::{ParquetRecordBatchReader, ParquetRecordBatchReaderBuilder};
use parquet::arrow::ArrowWriter;
use parquet_native::column::{Batch, ChunkData, ColumnChunk, HostArray, NativeColumn, StreamState};
use parquet_native::error::ParquetNativeError;
use parquet_native::kind::{DataKind, StorageKind};
use parquet_native::schema::Schema;
use parquet_native::value::{ColumnData, HostValue, Scalar};
use parquet_native::writer::{NativeWriter, RowBatch};

// The storage engine, driven as the bridge drives it, with memory in place of files.

fn data_type(kind: StorageKind) -> DataType {
    match kind {
        StorageKind::Boolean => DataType::Boolean,
        StorageKind::Int8 => DataType::Int8,
        StorageKind::Int16 => DataType::Int16,
        StorageKind::Int32 => DataType::Int32,
        StorageKind::Int64 => DataType::Int64,
        StorageKind::Float32 => DataType::Float32,
        StorageKind::Float64 => DataType::Float64,
        StorageKind::Null => DataType::Null,
    }
}

fn engine_schema(schema: &Schema) -> Arc<EngineSchema> {
    let fields: Vec<EngineField> = (0..schema.len())
        .map(|i| {
            let f = schema.field(i);
            EngineField::new(f.name.clone(), data_type(f.storage_type), f.nullable)
        })
        .collect();
    Arc::new(EngineSchema::new(fields))
}

fn engine_array(column: &ColumnData) -> ArrayRef {
    let values = column.values();
    match column.kind() {
        StorageKind::Boolean => Arc::new(BooleanArray::from(
            values.iter().map(|s| matches!(s, Scalar::Boolean(true))).collect::<Vec<bool>>(),
        )),
        StorageKind::Int8 => Arc::new(Int8Array::from(
            values.iter().map(|s| if let Scalar::Byte(v) = s { *v } else { unreachable!() }).collect::<Vec<i8>>(),
        )),
        StorageKind::Int16 => Arc::new(Int16Array::from(
            values.iter().map(|s| if let Scalar::Short(v) = s { *v } else { unreachable!() }).collect::<Vec<i16>>(),
        )),
        StorageKind::Int32 => Arc::new(Int32Array::from(
            values.iter().map(|s| if let Scalar::Int(v) = s { *v } else { unreachable!() }).collect::<Vec<i32>>(),
        )),
        StorageKind::Int64 => Arc::new(Int64Array::from(
            values.iter().map(|s| if let Scalar::Long(v) = s { *v } else { unreachable!() }).collect::<Vec<i64>>(),
        )),
        StorageKind::Float32 => Arc::new(Float32Array::from(
            values
                .iter()
                .map(|s| if let Scalar::Float(v) = s { f32::from_bits(*v) } else { unreachable!() })
                .collect::<Vec<f32>>(),
        )),
        StorageKind::Float64 => Arc::new(Float64Array::from(
            values
                .iter()
                .map(|s| if let Scalar::Double(v) = s { f64::from_bits(*v) } else { unreachable!() })
                .collect::<Vec<f64>>(),
        )),
        StorageKind::Null => new_empty_array(&DataType::Null),
    }
}

fn engine_batch(schema: &Arc<EngineSchema>, batch: &RowBatch) -> RecordBatch {
    let arrays: Vec<ArrayRef> = batch.columns().iter().map(engine_array).collect();
    RecordBatch::try_new(schema.clone(), arrays).unwrap()
}

fn data_kind(data_type: &DataType) -> DataKind {
    match data_type {
        DataType::Boolean => DataKind::Boolean,
        DataType::Int8 => DataKind::Int8,
        DataType::UInt8 => DataKind::UInt8,
        DataType::Int16 => DataKind::Int16,
        DataType::UInt16 => DataKind::UInt16,
        DataType::Int32 => DataKind::Int32,
        DataType::UInt32 => DataKind::UInt32,
        DataType::Int64 => DataKind::Int64,
        DataType::UInt64 => DataKind::UInt64,
        DataType::Float32 => DataKind::Float32,
        DataType::Float64 => DataKind::Float64,
        DataType::Null => DataKind::Null,
        _ => DataKind::Other,
    }
}

fn chunk(name: &str, array: &ArrayRef) -> ColumnChunk {
    let data = array.to_data();
    let buffers = data.buffers();
    let chunk_data = match data_kind(array.data_type()).read_kind() {
        Some(StorageKind::Boolean) => {
            ChunkData::Boolean(buffers.iter().map(|b| b.as_slice().to_vec()).collect())
        }
        Some(StorageKind::Int8) => {
            ChunkData::Int8(buffers.iter().map(|b| b.typed_data::<i8>().to_vec()).collect())
        }
        Some(StorageKind::Int16) => {
            ChunkData::Int16(buffers.iter().map(|b| b.typed_data::<i16>().to_vec()).collect())
        }
        Some(StorageKind::Int32) => {
            ChunkData::Int32(buffers.iter().map(|b| b.typed_data::<i32>().to_vec()).collect())
        }
        Some(StorageKind::Int64) => {
            ChunkData::Int64(buffers.iter().map(|b| b.typed_data::<i64>().to_vec()).collect())
        }
        Some(StorageKind::Float32) => {
            ChunkData::Float32(buffers.iter().map(|b| b.typed_data::<u32>().to_vec()).collect())
        }
        Some(StorageKind::Float64) => {
            ChunkData::Float64(buffers.iter().map(|b| b.typed_data::<u64>().to_vec()).collect())
        }
        Some(StorageKind::Null) | None => ChunkData::Unsupported,
    };
    ColumnChunk { name: name.to_string(), rows: data.len(), data: chunk_data }
}

fn batch(record_batch: &RecordBatch) -> Batch {
    let schema = record_batch.schema();
    let columns = schema
        .fields()
        .iter()
        .zip(record_batch.columns().iter())
        .map(|(field, array)| chunk(field.name(), array))
        .collect();
    Batch { columns }
}

fn pull(reader: &mut ParquetRecordBatchReader) -> Option<Result<Batch, ParquetNativeError>> {
    reader.next().map(|r| match r {
        Ok(record_batch) => Ok(batch(&record_batch)),
        Err(e) => Err(ParquetNativeError::Arrow(e.to_string())),
    })
}

fn mapping(entries: &[(&str, &str)]) -> Vec<(String, String)> {
    entries.iter().map(|(k, t)| (k.to_string(), t.to_string())).collect()
}

fn one(key: &str, scalar: Scalar) -> (String, HostValue) {
    (key.to_string(), HostValue::One(scalar))
}

/// Writes the rows through the write path and returns the finished file.
fn write_file(writer: &NativeWriter, rows: &[Vec<(String, HostValue)>]) -> Vec<u8> {
    let schema = engine_schema(writer.get_schema());
    let mut sink = ArrowWriter::try_new(Vec::new(), schema.clone(), None).unwrap();
    for entries in rows {
        let assembled = writer.write_row(entries).unwrap();
        sink.write(&engine_batch(&schema, &assembled)).unwrap();
    }
    sink.into_inner().unwrap()
}

fn column_names(file: &[u8]) -> Vec<String> {
    let builder = ParquetRecordBatchReaderBuilder::try_new(Bytes::from(file.to_vec())).unwrap();
    builder.schema().fields().iter().map(|f| f.name().clone()).collect()
}

fn open_column(file: &[u8], batch_size: usize) -> ParquetRecordBatchReader {
    ParquetRecordBatchReaderBuilder::try_new(Bytes::from(file.to_vec()))
        .unwrap()
        .with_batch_size(batch_size)
        .build()
        .unwrap()
}

/// Reads one column to its end and returns the arrays of its batches.
fn read_column(file: &[u8], name: &str, batch_size: usize) -> Vec<HostArray> {
    let mut reader = open_column(file, batch_size);
    let mut column = NativeColumn::new(name.to_string());
    let mut arrays = Vec::new();
    while let Some(result) = column.next(pull(&mut reader)) {
        arrays.push(result.unwrap().unwrap());
    }
    assert_eq!(column.current_state(), StreamState::Exhausted);
    arrays
}

#[test]
fn two_rows_written_and_read_back() {
    let writer = NativeWriter::open(&mapping(&[
        ("id", "java.lang.Integer"),
        ("score", "java.lang.Double"),
    ]));
    let file = write_file(
        &writer,
        &[
            vec![one("id", Scalar::Int(1)), one("score", Scalar::Double(3.5f64.to_bits()))],
            vec![one("id", Scalar::Int(2)), one("score", Scalar::Double(7.25f64.to_bits()))],
        ],
    );

    assert_eq!(column_names(&file), vec!["id", "score"]);

    let mut reader = open_column(&file, 1024);
    let mut column = NativeColumn::new("id".to_string());
    assert_eq!(column.next(pull(&mut reader)), Some(Ok(Some(HostArray::Int(vec![1, 2])))));
    assert_eq!(column.next(pull(&mut reader)), None);
    assert_eq!(column.current_state(), StreamState::Exhausted);

    assert_eq!(
        read_column(&file, "score", 1024),
        vec![HostArray::Double(vec![3.5f64.to_bits(), 7.25f64.to_bits()])]
    );
}

#[test]
fn every_supported_kind_is_read_back_as_written() {
    let writer = NativeWriter::open(&mapping(&[
        ("a", "java.lang.Boolean"),
        ("b", "java.lang.Byte"),
        ("c", "java.lang.Short"),
        ("d", "java.lang.Integer"),
        ("e", "java.lang.Long"),
        ("f", "java.lang.Float"),
        ("g", "java.lang.Double"),
    ]));
    let rows: Vec<Vec<(String, HostValue)>> = (0..5i64)
        .map(|i| {
            vec![
                one("a", Scalar::Boolean(i % 2 == 0)),
                one("b", Scalar::Byte((i - 2) as i8)),
                one("c", Scalar::Short((i * 1000 - 2000) as i16)),
                one("d", Scalar::Int((i * 100_000 - 200_000) as i32)),
                one("e", Scalar::Long(i * 10_000_000_000 - 20_000_000_000)),
                one("f", Scalar::Float((i as f32 * 0.5 - 1.0).to_bits())),
                one("g", Scalar::Double((i as f64 * 0.25 - 0.5).to_bits())),
            ]
        })
        .collect();
    let file = write_file(&writer, &rows);

    assert_eq!(read_column(&file, "a", 1024), vec![HostArray::Boolean(vec![1, 0, 1, 0, 1])]);
    assert_eq!(read_column(&file, "b", 1024), vec![HostArray::Byte(vec![-2, -1, 0, 1, 2])]);
    assert_eq!(
        read_column(&file, "c", 1024),
        vec![HostArray::Short(vec![-2000, -1000, 0, 1000, 2000])]
    );
    assert_eq!(
        read_column(&file, "d", 1024),
        vec![HostArray::Int(vec![-200_000, -100_000, 0, 100_000, 200_000])]
    );
    assert_eq!(
        read_column(&file, "e", 1024),
        vec![HostArray::Long(vec![
            -20_000_000_000,
            -10_000_000_000,
            0,
            10_000_000_000,
            20_000_000_000
        ])]
    );
    assert_eq!(
        read_column(&file, "f", 1024),
        vec![HostArray::Float(
            vec![-1.0f32, -0.5, 0.0, 0.5, 1.0].into_iter().map(f32::to_bits).collect()
        )]
    );
    assert_eq!(
        read_column(&file, "g", 1024),
        vec![HostArray::Double(
            vec![-0.5f64, -0.25, 0.0, 0.25, 0.5].into_iter().map(f64::to_bits).collect()
        )]
    );
}

#[test]
fn eight_booleans_are_read_back_bit_for_bit() {
    let writer = NativeWriter::open(&mapping(&[("flag", "java.lang.Boolean")]));
    let flags = [true, false, true, false, false, false, false, false];
    let rows: Vec<Vec<(String, HostValue)>> =
        flags.iter().map(|b| vec![one("flag", Scalar::Boolean(*b))]).collect();
    let file = write_file(&writer, &rows);
    assert_eq!(
        read_column(&file, "flag", 1024),
        vec![HostArray::Boolean(vec![1, 0, 1, 0, 0, 0, 0, 0])]
    );
}

#[test]
fn a_sequence_valued_row_is_read_back_in_order() {
    let writer = NativeWriter::open(&mapping(&[
        ("id", "java.lang.Long"),
        ("ok", "java.lang.Boolean"),
    ]));
    let row = vec![
        ("id".to_string(), HostValue::Many(vec![Scalar::Long(30), Scalar::Long(10), Scalar::Long(20)])),
        (
            "ok".to_string(),
            HostValue::Many(vec![Scalar::Boolean(false), Scalar::Boolean(true), Scalar::Boolean(true)]),
        ),
    ];
    let file = write_file(&writer, &[row]);
    assert_eq!(read_column(&file, "id", 1024), vec![HostArray::Long(vec![30, 10, 20])]);
    assert_eq!(read_column(&file, "ok", 1024), vec![HostArray::Boolean(vec![0, 1, 1])]);
}

#[test]
fn column_names_keep_the_order_of_the_writer() {
    let writer = NativeWriter::open(&mapping(&[
        ("zeta", "java.lang.Long"),
        ("alpha", "java.lang.Boolean"),
        ("mid", "java.lang.Short"),
    ]));
    let file = write_file(
        &writer,
        &[vec![
            one("mid", Scalar::Short(1)),
            one("zeta", Scalar::Long(2)),
            one("alpha", Scalar::Boolean(true)),
        ]],
    );
    assert_eq!(column_names(&file), writer.get_schema().names());
    assert_eq!(column_names(&file), vec!["zeta", "alpha", "mid"]);
}

#[test]
fn the_batches_of_a_column_hold_every_row_in_order() {
    let writer = NativeWriter::open(&mapping(&[("n", "java.lang.Integer")]));
    let rows: Vec<Vec<(String, HostValue)>> =
        (0..10).map(|i| vec![one("n", Scalar::Int(i * i))]).collect();
    let file = write_file(&writer, &rows);

    let arrays = read_column(&file, "n", 3);
    assert_eq!(arrays.len(), 4);
    let mut seen = Vec::new();
    for array in arrays {
        match array {
            HostArray::Int(values) => seen.extend(values),
            other => panic!("unexpected {:?}", other),
        }
    }
    assert_eq!(seen, (0..10).map(|i| i * i).collect::<Vec<i32>>());
    assert_eq!(seen.len(), rows.len());
}

#[test]
fn a_file_without_rows_exhausts_the_stream_at_once() {
    let writer = NativeWriter::open(&mapping(&[("n", "java.lang.Integer")]));
    let file = write_file(&writer, &[]);
    assert_eq!(column_names(&file), vec!["n"]);
    assert!(read_column(&file, "n", 1024).is_empty());
}

#[test]
fn a_refused_row_leaves_the_file_as_it_was() {
    let writer = NativeWriter::open(&mapping(&[("n", "java.lang.Integer")]));
    let schema = engine_schema(writer.get_schema());
    let mut sink = ArrowWriter::try_new(Vec::new(), schema.clone(), None).unwrap();
    let first = writer.write_row(&vec![one("n", Scalar::Int(1))]).unwrap();
    sink.write(&engine_batch(&schema, &first)).unwrap();
    assert_eq!(
        writer.write_row(&vec![one("m", Scalar::Int(2))]).unwrap_err(),
        ParquetNativeError::KeyNotFound
    );
    let third = writer.write_row(&vec![one("n", Scalar::Int(3))]).unwrap();
    sink.write(&engine_batch(&schema, &third)).unwrap();
    let file = sink.into_inner().unwrap();
    assert_eq!(read_column(&file, "n", 1024), vec![HostArray::Int(vec![1, 3])]);
}

#[test]
fn a_column_that_the_file_lacks_is_not_found() {
    let writer = NativeWriter::open(&mapping(&[("n", "java.lang.Integer")]));
    let file = write_file(&writer, &[vec![one("n", Scalar::Int(1))]]);
    let mut reader = open_column(&file, 1024);
    let mut column = NativeColumn::new("m".to_string());
    assert_eq!(column.next(pull(&mut reader)), Some(Err(ParquetNativeError::KeyNotFound)));
}

#[test]
fn a_column_of_text_is_skipped_and_an_unsigned_one_read_by_bit_pattern() {
    let schema = Arc::new(EngineSchema::new(vec![
        EngineField::new("label", DataType::Utf8, false),
        EngineField::new("port", DataType::UInt16, false),
    ]));
    let labels: ArrayRef = Arc::new(StringArray::from(vec!["a", "b"]));
    let ports: ArrayRef = Arc::new(UInt16Array::from(vec![80u16, 65535]));
    let record_batch = RecordBatch::try_new(schema.clone(), vec![labels, ports]).unwrap();
    let mut sink = ArrowWriter::try_new(Vec::new(), schema, None).unwrap();
    sink.write(&record_batch).unwrap();
    let file = sink.into_inner().unwrap();

    let mut reader = open_column(&file, 1024);
    let mut column = NativeColumn::new("label".to_string());
    assert_eq!(column.next(pull(&mut reader)), Some(Ok(None)));
    assert_eq!(column.next(pull(&mut reader)), None);

    assert_eq!(read_column(&file, "port", 1024), vec![HostArray::Short(vec![80, -1])]);
}

#[test]
fn the_assembled_batch_meets_what_the_batch_constructor_asks() {
    let writer = NativeWriter::open(&mapping(&[
        ("id", "java.lang.Integer"),
        ("score", "java.lang.Double"),
    ]));
    let schema = engine_schema(writer.get_schema());
    let assembled = writer
        .write_row(&vec![one("score", Scalar::Double(1.0f64.to_bits())), one("id", Scalar::Int(4))])
        .unwrap();
    let arrays: Vec<ArrayRef> = assembled.columns().iter().map(engine_array).collect();
    let record_batch = RecordBatch::try_new(schema, arrays).unwrap();
    assert_eq!(record_batch.num_rows(), assembled.num_rows());
    assert_eq!(record_batch.num_columns(), 2);
}
