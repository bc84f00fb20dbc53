//! The type dispatch matrix: storage kinds, the host type tokens that select
//! them and the engine data types that can be read back.

use vstd::prelude::*;
use vstd::string::*;
use crate::error::{ErrorModel, ParquetNativeError};

verus! {

/// The primitive type tag under which a column's values are stored.
#[derive(Clone, Copy, Debug, PartialEq, Eq, Structural)]
pub enum StorageKind {
    Boolean,
    Int8,
    Int16,
    Int32,
    Int64,
    Float32,
    Float64,
    /// The column exists but cannot hold typed data.
    Null,
}

/// A data type of the storage engine, as far as the bridge tells them apart.
#[derive(Clone, Copy, Debug, PartialEq, Eq, Structural)]
pub enum DataKind {
    Boolean,
    Int8,
    UInt8,
    Int16,
    UInt16,
    Int32,
    UInt32,
    Int64,
    UInt64,
    Float32,
    Float64,
    Null,
    /// Any other data type of the engine.
    Other,
}

/// The storage kind that a host type token selects: the seven boxed
/// primitive classes select their kind, every other token selects `Null`.
pub open spec fn kind_of_token(token: Seq<char>) -> StorageKind {
    if token == "java.lang.Boolean"@ {
        StorageKind::Boolean
    } else if token == "java.lang.Byte"@ {
        StorageKind::Int8
    } else if token == "java.lang.Short"@ {
        StorageKind::Int16
    } else if token == "java.lang.Integer"@ {
        StorageKind::Int32
    } else if token == "java.lang.Long"@ {
        StorageKind::Int64
    } else if token == "java.lang.Float"@ {
        StorageKind::Float32
    } else if token == "java.lang.Double"@ {
        StorageKind::Float64
    } else {
        StorageKind::Null
    }
}

/// The host type token of a typed storage kind; `Null` has none and gives
/// the empty text.
pub open spec fn token_of_kind(kind: StorageKind) -> Seq<char> {
    match kind {
        StorageKind::Boolean => "java.lang.Boolean"@,
        StorageKind::Int8 => "java.lang.Byte"@,
        StorageKind::Int16 => "java.lang.Short"@,
        StorageKind::Int32 => "java.lang.Integer"@,
        StorageKind::Int64 => "java.lang.Long"@,
        StorageKind::Float32 => "java.lang.Float"@,
        StorageKind::Float64 => "java.lang.Double"@,
        StorageKind::Null => Seq::empty(),
    }
}

/// The storage kind under which a column of the given engine data type is
/// read: an unsigned integer is read as the signed kind of its width, bit
/// for bit; a data type outside the supported primitives has no such kind.
pub open spec fn read_kind_of(data_type: DataKind) -> Option<StorageKind> {
    match data_type {
        DataKind::Boolean => Some(StorageKind::Boolean),
        DataKind::Int8 | DataKind::UInt8 => Some(StorageKind::Int8),
        DataKind::Int16 | DataKind::UInt16 => Some(StorageKind::Int16),
        DataKind::Int32 | DataKind::UInt32 => Some(StorageKind::Int32),
        DataKind::Int64 | DataKind::UInt64 => Some(StorageKind::Int64),
        DataKind::Float32 => Some(StorageKind::Float32),
        DataKind::Float64 => Some(StorageKind::Float64),
        DataKind::Null | DataKind::Other => None,
    }
}

impl StorageKind {
    /// Whether the kind can hold typed data.
    pub open spec fn is_typed(self) -> bool {
        self != StorageKind::Null
    }

    /// Derives the storage kind from a host type token.
    pub fn from_token(token: &str) -> (kind: StorageKind)
        ensures
            kind == kind_of_token(token@),
    {
        let name = String::from_str(token);
        if name == String::from_str("java.lang.Boolean") {
            StorageKind::Boolean
        } else if name == String::from_str("java.lang.Byte") {
            StorageKind::Int8
        } else if name == String::from_str("java.lang.Short") {
            StorageKind::Int16
        } else if name == String::from_str("java.lang.Integer") {
            StorageKind::Int32
        } else if name == String::from_str("java.lang.Long") {
            StorageKind::Int64
        } else if name == String::from_str("java.lang.Float") {
            StorageKind::Float32
        } else if name == String::from_str("java.lang.Double") {
            StorageKind::Float64
        } else {
            StorageKind::Null
        }
    }

    /// Classifies a host value by the token of its type: a value of a boxed
    /// primitive class is of that class's kind, and every other type is
    /// refused by its name.
    pub fn classify(token: &str) -> (result: Result<StorageKind, ParquetNativeError>)
        ensures
            match result {
                Ok(kind) => kind == kind_of_token(token@) && kind.is_typed(),
                Err(e) => !kind_of_token(token@).is_typed() && e@ == ErrorModel::UnsupportedType(
                    token@,
                ),
            },
    {
        match StorageKind::from_token(token) {
            StorageKind::Null => Err(ParquetNativeError::UnsupportedType(String::from_str(token))),
            kind => Ok(kind),
        }
    }

    /// The host type token whose values this kind stores.
    pub fn token(self) -> (token: String)
        ensures
            token@ == token_of_kind(self),
    {
        match self {
            StorageKind::Boolean => String::from_str("java.lang.Boolean"),
            StorageKind::Int8 => String::from_str("java.lang.Byte"),
            StorageKind::Int16 => String::from_str("java.lang.Short"),
            StorageKind::Int32 => String::from_str("java.lang.Integer"),
            StorageKind::Int64 => String::from_str("java.lang.Long"),
            StorageKind::Float32 => String::from_str("java.lang.Float"),
            StorageKind::Float64 => String::from_str("java.lang.Double"),
            StorageKind::Null => String::new(),
        }
    }
}

impl DataKind {
    /// The storage kind under which a column of this data type is read, if
    /// it is one of the supported primitives.
    pub fn read_kind(self) -> (kind: Option<StorageKind>)
        ensures
            kind == read_kind_of(self),
    {
        match self {
            DataKind::Boolean => Some(StorageKind::Boolean),
            DataKind::Int8 | DataKind::UInt8 => Some(StorageKind::Int8),
            DataKind::Int16 | DataKind::UInt16 => Some(StorageKind::Int16),
            DataKind::Int32 | DataKind::UInt32 => Some(StorageKind::Int32),
            DataKind::Int64 | DataKind::UInt64 => Some(StorageKind::Int64),
            DataKind::Float32 => Some(StorageKind::Float32),
            DataKind::Float64 => Some(StorageKind::Float64),
            DataKind::Null | DataKind::Other => None,
        }
    }
}

/// Every typed kind is selected by its own host type token: the schema
/// builder and the type lookup of the write path agree.
pub proof fn lemma_token_selects_its_kind(kind: StorageKind)
    requires
        kind.is_typed(),
    ensures
        kind_of_token(token_of_kind(kind)) == kind,
{
    reveal_strlit("java.lang.Boolean");
    reveal_strlit("java.lang.Byte");
    reveal_strlit("java.lang.Short");
    reveal_strlit("java.lang.Integer");
    reveal_strlit("java.lang.Long");
    reveal_strlit("java.lang.Float");
    reveal_strlit("java.lang.Double");
    let token = token_of_kind(kind);
    assert("java.lang.Boolean"@.len() == 17);
    assert("java.lang.Byte"@.len() == 14);
    assert("java.lang.Short"@.len() == 15);
    assert("java.lang.Integer"@.len() == 17);
    assert("java.lang.Long"@.len() == 14);
    assert("java.lang.Float"@.len() == 15);
    assert("java.lang.Double"@.len() == 16);
    assert("java.lang.Boolean"@[10] == 'B');
    assert("java.lang.Integer"@[10] == 'I');
    assert("java.lang.Byte"@[10] == 'B');
    assert("java.lang.Long"@[10] == 'L');
    assert("java.lang.Short"@[10] == 'S');
    assert("java.lang.Float"@[10] == 'F');
}

} // verus!
