//! The read path: the chunks of one batch, the host arrays read from them,
//! and the column stream that walks the batches of one column.

use vstd::prelude::*;
use vstd::string::*;
use crate::error::{ErrorModel, ParquetNativeError};
use crate::flatten::{
    byte_of_bit, concat_buffers, concat_buffers_bool, expand_bits, lemma_expand_inverts_pack,
    pack_bits, run_contents, short_bits_message,
};
use crate::kind::StorageKind;
use crate::value::{all_of_kind, ColumnModel, Scalar};

verus! {

/// The buffer runs of one column in one batch, typed by the kind under
/// which the column is read. A boolean column holds packed bits; a
/// floating-point column holds bit patterns.
#[derive(Debug, PartialEq, Eq)]
pub enum ChunkData {
    Boolean(Vec<Vec<u8>>),
    Int8(Vec<Vec<i8>>),
    Int16(Vec<Vec<i16>>),
    Int32(Vec<Vec<i32>>),
    Int64(Vec<Vec<i64>>),
    Float32(Vec<Vec<u32>>),
    Float64(Vec<Vec<u64>>),
    /// The column's data type is none of the supported primitives.
    Unsupported,
}

/// One named column of one batch.
#[derive(Debug, PartialEq, Eq)]
pub struct ColumnChunk {
    pub name: String,
    /// Row count of the batch.
    pub rows: usize,
    pub data: ChunkData,
}

/// One batch as the engine yields it: its columns, in storage order.
#[derive(Debug, PartialEq, Eq)]
pub struct Batch {
    pub columns: Vec<ColumnChunk>,
}

/// A native array of the host, one per supported primitive kind.
#[derive(Debug, PartialEq, Eq)]
pub enum HostArray {
    Boolean(Vec<u8>),
    Byte(Vec<i8>),
    Short(Vec<i16>),
    Int(Vec<i32>),
    Long(Vec<i64>),
    Float(Vec<u32>),
    Double(Vec<u64>),
}

/// Mathematical model of a [`HostArray`].
pub enum ArrayModel {
    Boolean(Seq<u8>),
    Byte(Seq<i8>),
    Short(Seq<i16>),
    Int(Seq<i32>),
    Long(Seq<i64>),
    Float(Seq<u32>),
    Double(Seq<u64>),
}

impl View for HostArray {
    type V = ArrayModel;

    open spec fn view(&self) -> ArrayModel {
        match self {
            HostArray::Boolean(v) => ArrayModel::Boolean(v@),
            HostArray::Byte(v) => ArrayModel::Byte(v@),
            HostArray::Short(v) => ArrayModel::Short(v@),
            HostArray::Int(v) => ArrayModel::Int(v@),
            HostArray::Long(v) => ArrayModel::Long(v@),
            HostArray::Float(v) => ArrayModel::Float(v@),
            HostArray::Double(v) => ArrayModel::Double(v@),
        }
    }
}

impl ArrayModel {
    /// Number of elements of the array.
    pub open spec fn len(self) -> nat {
        match self {
            ArrayModel::Boolean(v) => v.len(),
            ArrayModel::Byte(v) => v.len(),
            ArrayModel::Short(v) => v.len(),
            ArrayModel::Int(v) => v.len(),
            ArrayModel::Long(v) => v.len(),
            ArrayModel::Float(v) => v.len(),
            ArrayModel::Double(v) => v.len(),
        }
    }
}

/// What reading one chunk gives: an array, nothing because the data type
/// is unsupported, or a refusal.
pub enum Reading {
    Array(ArrayModel),
    Skipped,
    Refused(ErrorModel),
}

/// The reading that a result of the read path stands for.
pub open spec fn reading_of(result: Result<Option<HostArray>, ParquetNativeError>) -> Reading {
    match result {
        Ok(Some(array)) => Reading::Array(array@),
        Ok(None) => Reading::Skipped,
        Err(e) => Reading::Refused(e@),
    }
}

/// The elements of the runs, joined in order.
pub open spec fn joined<T>(runs: Vec<Vec<T>>) -> Seq<T> {
    run_contents(runs@).flatten()
}

/// The reading of one chunk. An integer or floating-point column gives its
/// runs joined in order. A boolean column gives the first `rows` bits of
/// its joined runs, one byte each, and is refused if the runs hold fewer
/// bits. An unsupported column gives nothing.
pub open spec fn chunk_reading(rows: usize, data: ChunkData) -> Reading {
    match data {
        ChunkData::Boolean(runs) => if rows <= 8 * joined(runs).len() {
            Reading::Array(ArrayModel::Boolean(expand_bits(joined(runs), rows as int)))
        } else {
            Reading::Refused(ErrorModel::Arrow(short_bits_message()))
        },
        ChunkData::Int8(runs) => Reading::Array(ArrayModel::Byte(joined(runs))),
        ChunkData::Int16(runs) => Reading::Array(ArrayModel::Short(joined(runs))),
        ChunkData::Int32(runs) => Reading::Array(ArrayModel::Int(joined(runs))),
        ChunkData::Int64(runs) => Reading::Array(ArrayModel::Long(joined(runs))),
        ChunkData::Float32(runs) => Reading::Array(ArrayModel::Float(joined(runs))),
        ChunkData::Float64(runs) => Reading::Array(ArrayModel::Double(joined(runs))),
        ChunkData::Unsupported => Reading::Skipped,
    }
}

impl Reading {
    /// Number of elements that the reading hands to the host.
    pub open spec fn len(self) -> nat {
        match self {
            Reading::Array(array) => array.len(),
            _ => 0,
        }
    }
}

/// Whether the runs of a chunk hold exactly the rows of its batch: as many
/// elements as rows, or for a boolean column at least as many bits.
pub open spec fn is_exact(rows: usize, data: ChunkData) -> bool {
    match data {
        ChunkData::Boolean(runs) => rows <= 8 * joined(runs).len(),
        ChunkData::Int8(runs) => joined(runs).len() == rows,
        ChunkData::Int16(runs) => joined(runs).len() == rows,
        ChunkData::Int32(runs) => joined(runs).len() == rows,
        ChunkData::Int64(runs) => joined(runs).len() == rows,
        ChunkData::Float32(runs) => joined(runs).len() == rows,
        ChunkData::Float64(runs) => joined(runs).len() == rows,
        ChunkData::Unsupported => false,
    }
}

/// Number of rows of the batches that the chunks come from.
pub open spec fn total_rows(chunks: Seq<ColumnChunk>) -> nat
    decreases chunks.len(),
{
    if chunks.len() == 0 {
        0
    } else {
        total_rows(chunks.drop_last()) + chunks.last().rows as nat
    }
}

/// Number of elements that reading the chunks one after the other gives.
pub open spec fn total_read(chunks: Seq<ColumnChunk>) -> nat
    decreases chunks.len(),
{
    if chunks.len() == 0 {
        0
    } else {
        total_read(chunks.drop_last()) + chunk_reading(
            chunks.last().rows,
            chunks.last().data,
        ).len()
    }
}

/// Reading the chunks of one column, batch after batch, gives as many
/// elements as the batches have rows, provided each chunk holds exactly the
/// rows of its batch.
pub proof fn lemma_stream_reads_every_row(chunks: Seq<ColumnChunk>)
    requires
        forall|k: int|
            0 <= k < chunks.len() ==> is_exact((#[trigger] chunks[k]).rows, chunks[k].data),
    ensures
        total_read(chunks) == total_rows(chunks),
    decreases chunks.len(),
{
    if chunks.len() > 0 {
        let last = chunks.last();
        assert(is_exact(last.rows, last.data));
        assert(chunk_reading(last.rows, last.data).len() == last.rows);
        let front = chunks.drop_last();
        assert forall|k: int| 0 <= k < front.len() implies is_exact(
            (#[trigger] front[k]).rows,
            front[k].data,
        ) by {
            assert(front[k] == chunks[k]);
        }
        lemma_stream_reads_every_row(front);
    }
}

/// The booleans that a column of boolean scalars holds.
pub open spec fn booleans_of(values: Seq<Scalar>) -> Seq<bool> {
    Seq::new(values.len(), |i: int| values[i] == Scalar::Boolean(true))
}

/// The host array that holds the values of a typed column of the write
/// path, in row order; a `Null` column has none.
pub open spec fn array_of_column(column: ColumnModel) -> Option<ArrayModel> {
    let n = column.values.len();
    match column.kind {
        StorageKind::Boolean => Some(
            ArrayModel::Boolean(booleans_of(column.values).map_values(|b: bool| byte_of_bit(b))),
        ),
        StorageKind::Int8 => Some(ArrayModel::Byte(Seq::new(n, |i: int| column.values[i]->Byte_0))),
        StorageKind::Int16 => Some(
            ArrayModel::Short(Seq::new(n, |i: int| column.values[i]->Short_0)),
        ),
        StorageKind::Int32 => Some(ArrayModel::Int(Seq::new(n, |i: int| column.values[i]->Int_0))),
        StorageKind::Int64 => Some(ArrayModel::Long(Seq::new(n, |i: int| column.values[i]->Long_0))),
        StorageKind::Float32 => Some(
            ArrayModel::Float(Seq::new(n, |i: int| column.values[i]->Float_0)),
        ),
        StorageKind::Float64 => Some(
            ArrayModel::Double(Seq::new(n, |i: int| column.values[i]->Double_0)),
        ),
        StorageKind::Null => None,
    }
}

/// Whether a chunk holds the values of a typed column of the write path as
/// the storage lays them out: a batch of as many rows as the column has
/// values, the values in row order, booleans packed one bit per value with
/// the least significant bit first, every other kind as elements of its
/// own width.
pub open spec fn stores(rows: usize, data: ChunkData, column: ColumnModel) -> bool {
    let n = column.values.len();
    &&& rows == n
    &&& all_of_kind(column.values, column.kind)
    &&& match column.kind {
        StorageKind::Boolean => data matches ChunkData::Boolean(runs) && joined(runs) == pack_bits(
            booleans_of(column.values),
        ),
        StorageKind::Int8 => data matches ChunkData::Int8(runs) && joined(runs) == Seq::new(
            n,
            |i: int| column.values[i]->Byte_0,
        ),
        StorageKind::Int16 => data matches ChunkData::Int16(runs) && joined(runs) == Seq::new(
            n,
            |i: int| column.values[i]->Short_0,
        ),
        StorageKind::Int32 => data matches ChunkData::Int32(runs) && joined(runs) == Seq::new(
            n,
            |i: int| column.values[i]->Int_0,
        ),
        StorageKind::Int64 => data matches ChunkData::Int64(runs) && joined(runs) == Seq::new(
            n,
            |i: int| column.values[i]->Long_0,
        ),
        StorageKind::Float32 => data matches ChunkData::Float32(runs) && joined(runs) == Seq::new(
            n,
            |i: int| column.values[i]->Float_0,
        ),
        StorageKind::Float64 => data matches ChunkData::Float64(runs) && joined(runs) == Seq::new(
            n,
            |i: int| column.values[i]->Double_0,
        ),
        StorageKind::Null => false,
    }
}

/// Round trip of the two paths, for every supported kind: a column that
/// the write path assembled, once stored, is read back as the array of its
/// values, as many as were written and in their order.
pub proof fn lemma_stored_column_reads_back(rows: usize, data: ChunkData, column: ColumnModel)
    requires
        stores(rows, data, column),
    ensures
        array_of_column(column) matches Some(array) && chunk_reading(rows, data) == Reading::Array(
            array,
        ) && array.len() == column.values.len(),
{
    lemma_expand_inverts_pack(booleans_of(column.values));
}

/// Whether `i` is the position of the first column with the given name.
pub open spec fn is_column_index(columns: Seq<ColumnChunk>, name: Seq<char>, i: int) -> bool {
    &&& 0 <= i < columns.len()
    &&& columns[i].name@ == name
    &&& forall|j: int| 0 <= j < i ==> (#[trigger] columns[j]).name@ != name
}

/// Whether some column has the given name.
pub open spec fn has_column(columns: Seq<ColumnChunk>, name: Seq<char>) -> bool {
    exists|i: int| 0 <= i < columns.len() && (#[trigger] columns[i]).name@ == name
}

impl ColumnChunk {
    /// Flattens the chunk into one host array, by the kind of its data.
    pub fn flatten(&self) -> (result: Result<Option<HostArray>, ParquetNativeError>)
        ensures
            reading_of(result) == chunk_reading(self.rows, self.data),
    {
        match &self.data {
            ChunkData::Boolean(runs) => match concat_buffers_bool(runs, self.rows) {
                Ok(values) => Ok(Some(HostArray::Boolean(values))),
                Err(e) => Err(e),
            },
            ChunkData::Int8(runs) => Ok(Some(HostArray::Byte(concat_buffers(runs)))),
            ChunkData::Int16(runs) => Ok(Some(HostArray::Short(concat_buffers(runs)))),
            ChunkData::Int32(runs) => Ok(Some(HostArray::Int(concat_buffers(runs)))),
            ChunkData::Int64(runs) => Ok(Some(HostArray::Long(concat_buffers(runs)))),
            ChunkData::Float32(runs) => Ok(Some(HostArray::Float(concat_buffers(runs)))),
            ChunkData::Float64(runs) => Ok(Some(HostArray::Double(concat_buffers(runs)))),
            ChunkData::Unsupported => Ok(None),
        }
    }
}

impl Batch {
    /// The first column with the given name, if there is one.
    pub fn column_by_name(&self, name: &String) -> (column: Option<&ColumnChunk>)
        ensures
            match column {
                Some(c) => exists|i: int|
                    is_column_index(self.columns@, name@, i) && *c == self.columns@[i],
                None => !has_column(self.columns@, name@),
            },
    {
        let mut i: usize = 0;
        while i < self.columns.len()
            invariant
                i <= self.columns@.len(),
                forall|j: int| 0 <= j < i ==> (#[trigger] self.columns@[j]).name@ != name@,
            decreases self.columns.len() - i,
        {
            if self.columns[i].name == *name {
                assert(is_column_index(self.columns@, name@, i as int));
                return Some(&self.columns[i]);
            }
            i += 1;
        }
        None
    }
}

/// Where a column stream stands.
#[derive(Clone, Copy, Debug, PartialEq, Eq, Structural)]
pub enum StreamState {
    /// Just created: no batch was pulled yet.
    Open,
    /// At least one batch was pulled.
    Active,
    /// The batches are used up.
    Exhausted,
}

/// A column stream: the name of its column and its place in the walk over
/// the batches.
#[derive(Debug)]
pub struct NativeColumn {
    name: String,
    state: StreamState,
}

/// What one advance of a stream gives for what was pulled from the engine.
/// No batch ends the stream. A failure of the engine is passed on. In a
/// batch the named column is looked up: its absence is a key-not-found
/// error, else the column's chunk is read.
pub open spec fn advance_reading(
    name: Seq<char>,
    pulled: Option<Result<Batch, ParquetNativeError>>,
) -> Option<Reading> {
    match pulled {
        None => None,
        Some(Err(e)) => Some(Reading::Refused(e@)),
        Some(Ok(batch)) => if has_column(batch.columns@, name) {
            let i = choose|i: int| is_column_index(batch.columns@, name, i);
            Some(chunk_reading(batch.columns@[i].rows, batch.columns@[i].data))
        } else {
            Some(Reading::Refused(ErrorModel::KeyNotFound))
        },
    }
}

/// The state of a stream after one advance.
pub open spec fn advance_state(
    state: StreamState,
    pulled: Option<Result<Batch, ParquetNativeError>>,
) -> StreamState {
    if state == StreamState::Exhausted {
        StreamState::Exhausted
    } else {
        match pulled {
            None => StreamState::Exhausted,
            Some(Err(_)) => state,
            Some(Ok(_)) => StreamState::Active,
        }
    }
}

impl NativeColumn {
    /// A stream over the column of the given name, before its first batch.
    pub fn new(name: String) -> (column: NativeColumn)
        ensures
            column.name()@ == name@,
            column.state() == StreamState::Open,
    {
        NativeColumn { name, state: StreamState::Open }
    }

    /// Name of the column that the stream reads.
    pub closed spec fn name(&self) -> String {
        self.name
    }

    /// Where the stream stands.
    pub closed spec fn state(&self) -> StreamState {
        self.state
    }

    /// Name of the column that the stream reads.
    pub fn column_name(&self) -> (name: &String)
        ensures
            *name == self.name(),
    {
        &self.name
    }

    /// Where the stream stands.
    pub fn current_state(&self) -> (state: StreamState)
        ensures
            state == self.state(),
    {
        self.state
    }

    /// Advances the stream by what was pulled from the engine: `None` when
    /// the engine has no further batch, a batch, or the engine's failure.
    ///
    /// An exhausted stream stays exhausted and gives `None` whatever was
    /// pulled. Otherwise the result is `None` at the end of the batches, and
    /// else holds what reading the named column of the batch gives: the
    /// flattened array, `Ok(None)` for a column of unsupported type, or the
    /// error.
    pub fn next(&mut self, pulled: Option<Result<Batch, ParquetNativeError>>) -> (result: Option<
        Result<Option<HostArray>, ParquetNativeError>,
    >)
        ensures
            final(self).name() == old(self).name(),
            final(self).state() == advance_state(old(self).state(), pulled),
            old(self).state() == StreamState::Exhausted ==> result is None,
            old(self).state() != StreamState::Exhausted ==> match result {
                Some(r) => Some(reading_of(r)),
                None => None,
            } == advance_reading(old(self).name()@, pulled),
    {
        if self.state == StreamState::Exhausted {
            return None;
        }
        match pulled {
            None => {
                self.state = StreamState::Exhausted;
                None
            },
            Some(Err(e)) => Some(Err(e)),
            Some(Ok(batch)) => {
                self.state = StreamState::Active;
                match batch.column_by_name(&self.name) {
                    None => Some(Err(ParquetNativeError::KeyNotFound)),
                    Some(chunk) => {
                        proof {
                            let i = choose|i: int|
                                is_column_index(batch.columns@, self.name@, i) && *chunk
                                    == batch.columns@[i];
                            let c = choose|c: int| is_column_index(batch.columns@, self.name@, c);
                            assert(is_column_index(batch.columns@, self.name@, i));
                            assert(c == i) by {
                                if c < i {
                                    assert(batch.columns@[c].name@ != self.name@);
                                } else if i < c {
                                    assert(batch.columns@[i].name@ != self.name@);
                                }
                            }
                        }
                        Some(chunk.flatten())
                    },
                }
            },
        }
    }
}

} // verus!
