//! The write path: a writer session with its schema, and the assembly of
//! one batch of equal-length columns from the values of one call.

use vstd::prelude::*;
use vstd::string::*;
use crate::error::{ErrorModel, ParquetNativeError};
use crate::kind::{token_of_kind, StorageKind};
use crate::schema::{
    field_index, fields_of_mapping, has_field, is_field_index, lemma_field_index, FieldModel,
    Schema,
};
use crate::value::{all_of_kind, is_first_mismatch, ColumnData, ColumnModel, HostValue, Scalar};

verus! {

/// The values that the entries of one call address to field `j`: those of
/// the last entry whose key names that field, none if there is no such entry.
pub open spec fn addressed_values(
    fields: Seq<FieldModel>,
    entries: Seq<(String, HostValue)>,
    j: int,
) -> Seq<Scalar>
    decreases entries.len(),
{
    if entries.len() == 0 {
        Seq::empty()
    } else if field_index(fields, entries.last().0@) == Some(j) {
        entries.last().1@
    } else {
        addressed_values(fields, entries.drop_last(), j)
    }
}

/// The columns that the entries of one call fill: one per field, in schema
/// order, of the field's kind, holding the values addressed to the field.
pub open spec fn row_columns(fields: Seq<FieldModel>, entries: Seq<(String, HostValue)>) -> Seq<
    ColumnModel,
> {
    Seq::new(
        fields.len(),
        |j: int|
            ColumnModel {
                kind: fields[j].storage_type,
                values: addressed_values(fields, entries, j),
            },
    )
}

/// Whether every key of the entries names a field.
pub open spec fn all_keys_known(fields: Seq<FieldModel>, entries: Seq<(String, HostValue)>) -> bool {
    forall|k: int| 0 <= k < entries.len() ==> has_field(fields, (#[trigger] entries[k]).0@)
}

/// Whether the values of an entry are all of the kind of the field that its
/// key names.
pub open spec fn entry_well_typed(fields: Seq<FieldModel>, entry: (String, HostValue)) -> bool {
    match field_index(fields, entry.0@) {
        Some(j) => all_of_kind(entry.1@, fields[j].storage_type),
        None => true,
    }
}

/// Whether every entry is well typed.
pub open spec fn all_well_typed(fields: Seq<FieldModel>, entries: Seq<(String, HostValue)>) -> bool {
    forall|k: int| 0 <= k < entries.len() ==> entry_well_typed(fields, #[trigger] entries[k])
}

/// Whether entry `k` is the first that is not well typed and `i` the
/// position of its first scalar of another kind than the field's.
pub open spec fn is_first_refused(
    fields: Seq<FieldModel>,
    entries: Seq<(String, HostValue)>,
    k: int,
    i: int,
) -> bool {
    &&& 0 <= k < entries.len()
    &&& field_index(fields, entries[k].0@) matches Some(j) && is_first_mismatch(
        entries[k].1@,
        fields[j].storage_type,
        i,
    )
    &&& forall|e: int| 0 <= e < k ==> entry_well_typed(fields, #[trigger] entries[e])
}

/// Whether all columns hold the same number of rows.
pub open spec fn equal_lengths(columns: Seq<ColumnModel>) -> bool {
    forall|a: int, b: int|
        0 <= a < columns.len() && 0 <= b < columns.len() ==> (#[trigger] columns[a]).values.len()
            == (#[trigger] columns[b]).values.len()
}

/// Text of the error that refuses columns of unequal length.
pub open spec fn shape_message() -> Seq<char> {
    "all columns in a record batch must have the same length"@
}

/// One batch of the write path: a column per schema field, all of the same
/// length.
#[derive(Debug)]
pub struct RowBatch {
    columns: Vec<ColumnData>,
}

impl View for RowBatch {
    type V = Seq<ColumnModel>;

    closed spec fn view(&self) -> Seq<ColumnModel> {
        Seq::new(self.columns@.len(), |j: int| self.columns@[j]@)
    }
}

impl RowBatch {
    #[verifier::type_invariant]
    spec fn same_lengths(self) -> bool {
        equal_lengths(self@)
    }

    /// The columns, in schema order; they are of equal length.
    pub fn columns(&self) -> (columns: &Vec<ColumnData>)
        ensures
            columns@.len() == self@.len(),
            forall|j: int| 0 <= j < self@.len() ==> (#[trigger] columns@[j])@ == self@[j],
            equal_lengths(self@),
    {
        proof {
            use_type_invariant(self);
        }
        &self.columns
    }

    /// Number of rows of the batch: the length that its columns share, and
    /// zero for a batch without columns.
    pub fn num_rows(&self) -> (rows: usize)
        ensures
            forall|j: int| 0 <= j < self@.len() ==> (#[trigger] self@[j]).values.len() == rows,
            self@.len() == 0 ==> rows == 0,
    {
        proof {
            use_type_invariant(self);
        }
        if self.columns.len() == 0 {
            0
        } else {
            assert(self@[0] == self.columns@[0]@);
            self.columns[0].len()
        }
    }
}

/// A writer session: the schema that was fixed when the writer was opened.
#[derive(Debug)]
pub struct NativeWriter {
    schema: Schema,
}

impl NativeWriter {
    /// Opens a session for the schema that the mapping describes.
    pub fn open(mapping: &Vec<(String, String)>) -> (writer: NativeWriter)
        ensures
            writer.schema()@ == fields_of_mapping(mapping@),
    {
        NativeWriter { schema: Schema::from_mapping(mapping) }
    }

    /// The schema of the session.
    pub closed spec fn schema(&self) -> Schema {
        self.schema
    }

    /// The schema of the session.
    pub fn get_schema(&self) -> (schema: &Schema)
        ensures
            *schema == self.schema(),
    {
        &self.schema
    }

    /// Resolves a key of a call to the position and kind of the field that
    /// it names; a key that names no field is refused.
    pub fn resolve(&self, key: &String) -> (result: Result<(usize, StorageKind), ParquetNativeError>)
        ensures
            match result {
                Ok((index, kind)) => {
                    &&& is_field_index(self.schema()@, key@, index as int)
                    &&& kind == self.schema()@[index as int].storage_type
                },
                Err(e) => e@ == ErrorModel::KeyNotFound && !has_field(self.schema()@, key@),
            },
    {
        match self.schema.find(key) {
            Some(index) => Ok((index, self.schema.field(index).storage_type)),
            None => Err(ParquetNativeError::KeyNotFound),
        }
    }

    /// Assembles the batch of one call. Every field starts from an empty
    /// array of its kind; each entry replaces the array of the field that
    /// its key names by one built from its value.
    ///
    /// The call is refused, and nothing is assembled, when a key names no
    /// field (key not found, whichever entry it is), else when a value holds
    /// a scalar of another kind than its field (unsupported type, named
    /// after the first such scalar of the first such entry), else when the
    /// columns are not all of the same length.
    pub fn write_row(&self, entries: &Vec<(String, HostValue)>) -> (result: Result<
        RowBatch,
        ParquetNativeError,
    >)
        ensures
            !all_keys_known(self.schema()@, entries@) <==> (result matches Err(e) && e@
                == ErrorModel::KeyNotFound),
            match result {
                Ok(batch) => {
                    &&& all_keys_known(self.schema()@, entries@)
                    &&& all_well_typed(self.schema()@, entries@)
                    &&& batch@ == row_columns(self.schema()@, entries@)
                    &&& equal_lengths(batch@)
                },
                Err(e) => match e@ {
                    ErrorModel::KeyNotFound => !all_keys_known(self.schema()@, entries@),
                    ErrorModel::UnsupportedType(t) => {
                        &&& all_keys_known(self.schema()@, entries@)
                        &&& exists|k: int, i: int|
                            {
                                &&& #[trigger] is_first_refused(self.schema()@, entries@, k, i)
                                &&& t == token_of_kind(entries@[k].1@[i].kind())
                            }
                    },
                    ErrorModel::Arrow(m) => {
                        &&& all_keys_known(self.schema()@, entries@)
                        &&& all_well_typed(self.schema()@, entries@)
                        &&& !equal_lengths(row_columns(self.schema()@, entries@))
                        &&& m == shape_message()
                    },
                    _ => false,
                },
            },
    {
        let ghost fields = self.schema@;
        // Every key is resolved before any value is looked at.
        let mut indices: Vec<usize> = Vec::new();
        let mut k: usize = 0;
        while k < entries.len()
            invariant
                k <= entries.len(),
                indices@.len() == k,
                fields == self.schema@,
                forall|e: int|
                    0 <= e < k ==> is_field_index(
                        fields,
                        (#[trigger] entries@[e]).0@,
                        indices@[e] as int,
                    ),
            decreases entries.len() - k,
        {
            match self.schema.find(&entries[k].0) {
                Some(index) => indices.push(index),
                None => {
                    assert(!has_field(fields, entries@[k as int].0@));
                    return Err(ParquetNativeError::KeyNotFound);
                },
            }
            k += 1;
        }
        assert(all_keys_known(fields, entries@)) by {
            assert forall|e: int| 0 <= e < entries@.len() implies has_field(
                fields,
                (#[trigger] entries@[e]).0@,
            ) by {
                assert(is_field_index(fields, entries@[e].0@, indices@[e] as int));
            }
        }

        let mut columns: Vec<ColumnData> = Vec::new();
        let mut j: usize = 0;
        while j < self.schema.len()
            invariant
                j <= self.schema@.len(),
                fields == self.schema@,
                columns@.len() == j,
                forall|c: int|
                    0 <= c < j ==> (#[trigger] columns@[c])@ == (ColumnModel {
                        kind: fields[c].storage_type,
                        values: Seq::empty(),
                    }),
            decreases self.schema@.len() - j,
        {
            columns.push(ColumnData::empty(self.schema.field(j).storage_type));
            j += 1;
        }

        let mut k: usize = 0;
        while k < entries.len()
            invariant
                k <= entries.len(),
                fields == self.schema@,
                indices@.len() == entries@.len(),
                forall|e: int|
                    0 <= e < entries@.len() ==> is_field_index(
                        fields,
                        (#[trigger] entries@[e]).0@,
                        indices@[e] as int,
                    ),
                all_keys_known(fields, entries@),
                columns@.len() == fields.len(),
                forall|c: int|
                    0 <= c < fields.len() ==> (#[trigger] columns@[c])@ == (ColumnModel {
                        kind: fields[c].storage_type,
                        values: addressed_values(fields, entries@.take(k as int), c),
                    }),
                forall|e: int| 0 <= e < k ==> entry_well_typed(fields, #[trigger] entries@[e]),
            decreases entries.len() - k,
        {
            let index = indices[k];
            let ghost key = entries@[k as int].0@;
            proof {
                assert(is_field_index(fields, entries@[k as int].0@, index as int));
                lemma_field_index(fields, key, index as int);
            }
            let kind = self.schema.field(index).storage_type;
            match ColumnData::from_value(kind, &entries[k].1) {
                Ok(column) => {
                    columns.set(index, column);
                },
                Err(e) => {
                    proof {
                        let i = choose|i: int|
                            {
                                &&& is_first_mismatch(entries@[k as int].1@, kind, i)
                                &&& e@ == ErrorModel::UnsupportedType(
                                    token_of_kind(entries@[k as int].1@[i].kind()),
                                )
                            };
                        assert(is_first_refused(self.schema()@, entries@, k as int, i));
                    }
                    return Err(e);
                },
            }
            proof {
                let next = entries@.take(k + 1);
                assert(next.last() == entries@[k as int]);
                assert(next.drop_last() == entries@.take(k as int));
                assert forall|c: int| 0 <= c < fields.len() implies (#[trigger] columns@[c])@
                    == (ColumnModel {
                    kind: fields[c].storage_type,
                    values: addressed_values(fields, next, c),
                }) by {
                    if c == index {
                        assert(addressed_values(fields, next, c) == entries@[k as int].1@);
                    } else {
                        assert(addressed_values(fields, next, c) == addressed_values(
                            fields,
                            entries@.take(k as int),
                            c,
                        ));
                    }
                }
            }
            k += 1;
        }
        assert(entries@.take(entries@.len() as int) == entries@);
        assert(all_well_typed(fields, entries@));
        let ghost model = row_columns(fields, entries@);
        assert forall|c: int| 0 <= c < fields.len() implies (#[trigger] columns@[c])@
            == model[c] by {}

        // The batch holds equal-length columns or nothing.
        let mut c: usize = 1;
        while c < columns.len()
            invariant
                1 <= c,
                fields == self.schema@,
                all_keys_known(fields, entries@),
                all_well_typed(fields, entries@),
                model == row_columns(fields, entries@),
                columns@.len() == fields.len(),
                forall|d: int| 0 <= d < fields.len() ==> (#[trigger] columns@[d])@ == model[d],
                model.len() == fields.len(),
                forall|d: int|
                    0 <= d < c && d < fields.len() ==> (#[trigger] model[d]).values.len()
                        == model[0].values.len(),
            decreases columns.len() - c,
        {
            assert(columns@[c as int]@ == model[c as int]);
            assert(columns@[0]@ == model[0]);
            if columns[c].len() != columns[0].len() {
                assert(!equal_lengths(model)) by {
                    assert(model[c as int].values.len() != model[0].values.len());
                }
                return Err(
                    ParquetNativeError::Arrow(
                        String::from_str("all columns in a record batch must have the same length"),
                    ),
                );
            }
            c += 1;
        }
        let batch = RowBatch { columns };
        assert(batch@ =~= model);
        Ok(batch)
    }
}

} // verus!
