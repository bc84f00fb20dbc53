//! Error taxonomy of the bridge and its mapping onto host-visible failures.

use vstd::prelude::*;
use vstd::string::*;

verus! {

/// Every failure a boundary operation can report.
///
/// The first four variants carry the message of a failure that arose in a
/// collaborator: the host runtime, the file system, the storage engine and
/// the columnar batch layer.
#[derive(Debug, PartialEq, Eq)]
pub enum ParquetNativeError {
    JNI(String),
    IO(String),
    Parquet(String),
    Arrow(String),
    /// An operation was invoked with the zero sentinel or a dangling handle.
    Null,
    /// A type that none of the supported primitive kinds can hold.
    UnsupportedType(String),
    /// A named column or field is absent.
    KeyNotFound,
}

/// Mathematical model of a [`ParquetNativeError`].
pub enum ErrorModel {
    JNI(Seq<char>),
    IO(Seq<char>),
    Parquet(Seq<char>),
    Arrow(Seq<char>),
    Null,
    UnsupportedType(Seq<char>),
    KeyNotFound,
}

impl View for ParquetNativeError {
    type V = ErrorModel;

    open spec fn view(&self) -> ErrorModel {
        match self {
            ParquetNativeError::JNI(m) => ErrorModel::JNI(m@),
            ParquetNativeError::IO(m) => ErrorModel::IO(m@),
            ParquetNativeError::Parquet(m) => ErrorModel::Parquet(m@),
            ParquetNativeError::Arrow(m) => ErrorModel::Arrow(m@),
            ParquetNativeError::Null => ErrorModel::Null,
            ParquetNativeError::UnsupportedType(t) => ErrorModel::UnsupportedType(t@),
            ParquetNativeError::KeyNotFound => ErrorModel::KeyNotFound,
        }
    }
}

/// A failure signal as the host sees it: the class to raise and its message.
#[derive(Debug, PartialEq, Eq)]
pub struct Exception {
    pub class: String,
    pub msg: String,
}

/// Class of the distinguished "invalid argument" signal.
pub open spec fn null_pointer_class() -> Seq<char> {
    "java/lang/NullPointerException"@
}

/// Class of the generic runtime-failure signal.
pub open spec fn runtime_class() -> Seq<char> {
    "java/lang/RuntimeException"@
}

impl ErrorModel {
    /// The class of the signal that the host receives for this error.
    pub open spec fn class(self) -> Seq<char> {
        if self is Null {
            null_pointer_class()
        } else {
            runtime_class()
        }
    }

    /// The message that the host receives for this error.
    pub open spec fn message(self) -> Seq<char> {
        match self {
            ErrorModel::JNI(m) => m,
            ErrorModel::IO(m) => m,
            ErrorModel::Parquet(m) => m,
            ErrorModel::Arrow(m) => m,
            ErrorModel::Null => "the native pointer is null"@,
            ErrorModel::UnsupportedType(t) => "type "@ + t + " is not supported"@,
            ErrorModel::KeyNotFound => "key not found"@,
        }
    }
}

impl ParquetNativeError {
    /// The text that describes this error.
    pub fn message(&self) -> (msg: String)
        ensures
            msg@ == self@.message(),
    {
        match self {
            ParquetNativeError::JNI(m) => m.clone(),
            ParquetNativeError::IO(m) => m.clone(),
            ParquetNativeError::Parquet(m) => m.clone(),
            ParquetNativeError::Arrow(m) => m.clone(),
            ParquetNativeError::Null => String::from_str("the native pointer is null"),
            ParquetNativeError::UnsupportedType(t) => {
                let mut msg = String::from_str("type ");
                msg.append(t.as_str());
                msg.append(" is not supported");
                msg
            },
            ParquetNativeError::KeyNotFound => String::from_str("key not found"),
        }
    }

    /// Maps the error onto the signal raised in the host: the null-handle
    /// error becomes the invalid-argument class, every other error the
    /// generic runtime-failure class, each with the error's own message.
    pub fn to_exception(&self) -> (e: Exception)
        ensures
            e.class@ == self@.class(),
            e.msg@ == self@.message(),
    {
        let class = match self {
            ParquetNativeError::JNI(_)
            | ParquetNativeError::IO(_)
            | ParquetNativeError::Parquet(_)
            | ParquetNativeError::Arrow(_)
            | ParquetNativeError::UnsupportedType(_)
            | ParquetNativeError::KeyNotFound => "java/lang/RuntimeException",
            ParquetNativeError::Null => "java/lang/NullPointerException",
        };
        Exception { class: String::from_str(class), msg: self.message() }
    }
}

/// Settles the outcome of a boundary call: a success returns its value and
/// raises nothing; a failure returns the given default, zero where a handle
/// was expected, and raises the signal of its error.
pub fn raise_or_return<T>(result: Result<T, ParquetNativeError>, default: T) -> (outcome: (
    T,
    Option<Exception>,
))
    ensures
        match result {
            Ok(value) => outcome.0 == value && outcome.1 is None,
            Err(e) => {
                &&& outcome.0 == default
                &&& outcome.1 matches Some(signal)
                &&& signal.class@ == e@.class()
                &&& signal.msg@ == e@.message()
            },
        },
{
    match result {
        Ok(value) => (value, None),
        Err(e) => (default, Some(e.to_exception())),
    }
}

} // verus!
