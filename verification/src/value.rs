//! Host values as the bridge sees them once they are classified: tagged
//! scalars, single values or sequences of them, and the typed arrays that
//! one column of one batch holds.

use vstd::prelude::*;
use vstd::string::*;
use crate::error::{ErrorModel, ParquetNativeError};
use crate::kind::{token_of_kind, StorageKind};

verus! {

/// One host value of a supported primitive kind. A floating-point value is
/// carried as its bit pattern.
#[derive(Clone, Copy, Debug, PartialEq, Eq, Structural)]
pub enum Scalar {
    Boolean(bool),
    Byte(i8),
    Short(i16),
    Int(i32),
    Long(i64),
    Float(u32),
    Double(u64),
}

impl Scalar {
    /// The storage kind that holds this value.
    pub open spec fn kind(self) -> StorageKind {
        match self {
            Scalar::Boolean(_) => StorageKind::Boolean,
            Scalar::Byte(_) => StorageKind::Int8,
            Scalar::Short(_) => StorageKind::Int16,
            Scalar::Int(_) => StorageKind::Int32,
            Scalar::Long(_) => StorageKind::Int64,
            Scalar::Float(_) => StorageKind::Float32,
            Scalar::Double(_) => StorageKind::Float64,
        }
    }

    /// The storage kind that holds this value.
    pub fn storage_kind(&self) -> (kind: StorageKind)
        ensures
            kind == self.kind(),
            kind.is_typed(),
    {
        match self {
            Scalar::Boolean(_) => StorageKind::Boolean,
            Scalar::Byte(_) => StorageKind::Int8,
            Scalar::Short(_) => StorageKind::Int16,
            Scalar::Int(_) => StorageKind::Int32,
            Scalar::Long(_) => StorageKind::Int64,
            Scalar::Float(_) => StorageKind::Float32,
            Scalar::Double(_) => StorageKind::Float64,
        }
    }
}

/// A value supplied for one field: one scalar, or an ordered sequence of
/// scalars of which each becomes one row.
#[derive(Debug, PartialEq, Eq)]
pub enum HostValue {
    One(Scalar),
    Many(Vec<Scalar>),
}

impl View for HostValue {
    type V = Seq<Scalar>;

    /// The scalars of the value, in order.
    open spec fn view(&self) -> Seq<Scalar> {
        match self {
            HostValue::One(s) => seq![*s],
            HostValue::Many(v) => v@,
        }
    }
}

/// Whether `i` is the first position of `scalars` whose value is not of the
/// given kind.
pub open spec fn is_first_mismatch(scalars: Seq<Scalar>, kind: StorageKind, i: int) -> bool {
    &&& 0 <= i < scalars.len()
    &&& scalars[i].kind() != kind
    &&& forall|j: int| 0 <= j < i ==> (#[trigger] scalars[j]).kind() == kind
}

/// Whether every value of `scalars` is of the given kind.
pub open spec fn all_of_kind(scalars: Seq<Scalar>, kind: StorageKind) -> bool {
    forall|i: int| 0 <= i < scalars.len() ==> (#[trigger] scalars[i]).kind() == kind
}

/// Mathematical model of a [`ColumnData`].
pub struct ColumnModel {
    pub kind: StorageKind,
    pub values: Seq<Scalar>,
}

/// The values of one field in one batch: an array of the field's kind.
#[derive(Debug, PartialEq, Eq)]
pub struct ColumnData {
    kind: StorageKind,
    values: Vec<Scalar>,
}

impl View for ColumnData {
    type V = ColumnModel;

    closed spec fn view(&self) -> ColumnModel {
        ColumnModel { kind: self.kind, values: self.values@ }
    }
}

impl ColumnData {
    /// Every value is of the column's kind; so a `Null` column is empty.
    #[verifier::type_invariant]
    spec fn well_typed(self) -> bool {
        all_of_kind(self.values@, self.kind)
    }

    /// The empty placeholder array of the given kind.
    pub fn empty(kind: StorageKind) -> (column: ColumnData)
        ensures
            column@.kind == kind,
            column@.values == Seq::<Scalar>::empty(),
    {
        ColumnData { kind, values: Vec::new() }
    }

    /// Builds the array of a field of the given kind from a supplied value:
    /// of length one for a single scalar, of the sequence's length for a
    /// sequence. A scalar of another kind is refused with the name of its
    /// type, the first such scalar deciding.
    pub fn from_value(kind: StorageKind, value: &HostValue) -> (result: Result<
        ColumnData,
        ParquetNativeError,
    >)
        ensures
            match result {
                Ok(column) => {
                    &&& all_of_kind(value@, kind)
                    &&& column@.kind == kind
                    &&& column@.values == value@
                },
                Err(e) => exists|i: int|
                    {
                        &&& is_first_mismatch(value@, kind, i)
                        &&& e@ == ErrorModel::UnsupportedType(token_of_kind(value@[i].kind()))
                    },
            },
    {
        let mut values: Vec<Scalar> = Vec::new();
        match value {
            HostValue::One(s) => {
                if s.storage_kind() != kind {
                    assert(is_first_mismatch(value@, kind, 0));
                    return Err(ParquetNativeError::UnsupportedType(s.storage_kind().token()));
                }
                values.push(*s);
            },
            HostValue::Many(v) => {
                let mut i: usize = 0;
                while i < v.len()
                    invariant
                        i <= v.len(),
                        values@ == v@.take(i as int),
                        all_of_kind(v@.take(i as int), kind),
                        value@ == v@,
                    decreases v.len() - i,
                {
                    let s = v[i];
                    if s.storage_kind() != kind {
                        assert(is_first_mismatch(value@, kind, i as int)) by {
                            assert forall|j: int| 0 <= j < i implies (#[trigger] value@[j]).kind()
                                == kind by {
                                assert(v@.take(i as int)[j] == v@[j]);
                            }
                        }
                        return Err(ParquetNativeError::UnsupportedType(s.storage_kind().token()));
                    }
                    values.push(s);
                    proof {
                        assert(v@.take(i + 1) == v@.take(i as int).push(v@[i as int]));
                    }
                    i += 1;
                }
                assert(v@.take(v.len() as int) == v@);
            },
        }
        Ok(ColumnData { kind, values })
    }

    /// The kind of the column.
    pub fn kind(&self) -> (kind: StorageKind)
        ensures
            kind == self@.kind,
    {
        self.kind
    }

    /// Number of rows that the column holds.
    pub fn len(&self) -> (n: usize)
        ensures
            n == self@.values.len(),
    {
        self.values.len()
    }

    /// The values of the column, in row order, each of the column's kind.
    pub fn values(&self) -> (values: &Vec<Scalar>)
        ensures
            values@ == self@.values,
            all_of_kind(values@, self@.kind),
    {
        proof {
            use_type_invariant(self);
        }
        &self.values
    }
}

} // verus!
