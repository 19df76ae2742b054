use vstd::prelude::*;

verus! {

/// The errors of configuration parsing, validation and generation.
#[derive(Debug)]
pub enum DataFakeError {
    ConfigParse(String),
    InvalidConfig(String),
    VariableNotFound(String),
    JsonError(String),
    FakeOperatorError(String),
    UnknownFakeMethod(String),
    TypeConversion(String),
    InvalidLocale(String),
    InvalidRange { min: i128, max: i128 },
}

/// Which kind of error a `DataFakeError` is.
#[derive(Debug, Clone, Copy, PartialEq, Eq, Structural)]
pub enum ErrorKind {
    ConfigParse,
    InvalidConfig,
    VariableNotFound,
    JsonError,
    FakeOperator,
    UnknownFakeMethod,
    TypeConversion,
    InvalidLocale,
    InvalidRange,
}

/// The result type of the library.
pub type Result<T> = std::result::Result<T, DataFakeError>;

impl DataFakeError {
    pub open spec fn spec_kind(&self) -> ErrorKind {
        match self {
            DataFakeError::ConfigParse(_) => ErrorKind::ConfigParse,
            DataFakeError::InvalidConfig(_) => ErrorKind::InvalidConfig,
            DataFakeError::VariableNotFound(_) => ErrorKind::VariableNotFound,
            DataFakeError::JsonError(_) => ErrorKind::JsonError,
            DataFakeError::FakeOperatorError(_) => ErrorKind::FakeOperator,
            DataFakeError::UnknownFakeMethod(_) => ErrorKind::UnknownFakeMethod,
            DataFakeError::TypeConversion(_) => ErrorKind::TypeConversion,
            DataFakeError::InvalidLocale(_) => ErrorKind::InvalidLocale,
            DataFakeError::InvalidRange { .. } => ErrorKind::InvalidRange,
        }
    }

    /// The kind of this error.
    #[verifier::when_used_as_spec(spec_kind)]
    pub fn kind(&self) -> (r: ErrorKind)
        ensures
            r == self.spec_kind(),
    {
        match self {
            DataFakeError::ConfigParse(_) => ErrorKind::ConfigParse,
            DataFakeError::InvalidConfig(_) => ErrorKind::InvalidConfig,
            DataFakeError::VariableNotFound(_) => ErrorKind::VariableNotFound,
            DataFakeError::JsonError(_) => ErrorKind::JsonError,
            DataFakeError::FakeOperatorError(_) => ErrorKind::FakeOperator,
            DataFakeError::UnknownFakeMethod(_) => ErrorKind::UnknownFakeMethod,
            DataFakeError::TypeConversion(_) => ErrorKind::TypeConversion,
            DataFakeError::InvalidLocale(_) => ErrorKind::InvalidLocale,
            DataFakeError::InvalidRange { .. } => ErrorKind::InvalidRange,
        }
    }

    /// A message that describes the error.
    pub fn message(&self) -> String {
        match self {
            DataFakeError::ConfigParse(m) => m.clone(),
            DataFakeError::InvalidConfig(m) => m.clone(),
            DataFakeError::VariableNotFound(m) => m.clone(),
            DataFakeError::JsonError(m) => m.clone(),
            DataFakeError::FakeOperatorError(m) => m.clone(),
            DataFakeError::UnknownFakeMethod(m) => m.clone(),
            DataFakeError::TypeConversion(m) => m.clone(),
            DataFakeError::InvalidLocale(m) => m.clone(),
            DataFakeError::InvalidRange { .. } => String::from_str("invalid numeric range: min is greater than max"),
        }
    }
}

} // verus!
