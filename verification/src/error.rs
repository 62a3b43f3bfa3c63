//! Error values shared by the whole library.

use vstd::prelude::*;

verus! {

/// Every failure the library itself can report.
#[derive(Debug, Clone, PartialEq, Eq)]
pub enum MyError {
    /// A textual value could not be parsed into the expected shape.
    ParseError { param_name: String, value: String, memo: String },
    /// A persisted model row carries a family tag outside the known set.
    UnknownModelType { value: u8 },
    /// A model family name that the library does not support.
    UnsupportedModelTypeEnum { value: String },
    /// A persisted model row whose parameter hash does not match its
    /// parameters; the row must not be trusted.
    UnmatchFeatureParamsHash { pair: String, model_no: i32 },
    /// An operation that needs at least one element got none.
    ArrayIsEmpty { name: String },
    /// Fewer samples were available than the configuration demands.
    InputDataIsTooLittle { count: usize, require: usize },
    /// Breeding the next generation made no progress within the allowed
    /// number of random draws.
    BreedingStalled { attempts: usize },
}

pub type MyResult<T> = Result<T, MyError>;

} // verus!
