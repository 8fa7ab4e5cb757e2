use vstd::prelude::*;

verus! {

/// What went wrong when an integer was read from text, with the same
/// distinctions as the standard library draws.
#[derive(Debug, Clone, Copy, PartialEq, Eq, Structural)]
pub enum IntErrorKind {
    /// The text was empty.
    Empty,
    /// The text held a character that is not a decimal digit where one was due.
    InvalidDigit,
    /// The value is above the largest value of the type.
    PosOverflow,
    /// The value is below the smallest value of the type.
    NegOverflow,
}

/// The errors of this library.
#[derive(Debug, Clone, PartialEq, Eq)]
pub enum AtError {
    /// Reading an environment variable failed for another reason than its absence.
    EnvVarError(String),
    /// A file was to be created where one already exists.
    FileExists(String),
    /// A setting's text is not one of the values that the setting takes.
    InvalidValue { expected: String, got: String },
    /// Reading or writing a file failed.
    IoError(String),
    /// A list of host addresses is not well formed.
    ParseAddressError(String),
    /// A boolean is neither `true` nor `false`.
    ParseBoolError,
    /// An integer could not be read.
    ParseIntError(IntErrorKind),
    /// The TOML text does not parse, or does not have the shape of the settings.
    TomlError(String),
}

/// An error of this library, with its texts as sequences of characters.
pub enum AtErrorView {
    EnvVarError(Seq<char>),
    FileExists(Seq<char>),
    InvalidValue { expected: Seq<char>, got: Seq<char> },
    IoError(Seq<char>),
    ParseAddressError(Seq<char>),
    ParseBoolError,
    ParseIntError(IntErrorKind),
    TomlError(Seq<char>),
}

impl DeepView for AtError {
    type V = AtErrorView;

    open spec fn deep_view(&self) -> AtErrorView {
        match self {
            AtError::EnvVarError(m) => AtErrorView::EnvVarError(m@),
            AtError::FileExists(m) => AtErrorView::FileExists(m@),
            AtError::InvalidValue { expected, got } => AtErrorView::InvalidValue { expected: expected@, got: got@ },
            AtError::IoError(m) => AtErrorView::IoError(m@),
            AtError::ParseAddressError(m) => AtErrorView::ParseAddressError(m@),
            AtError::ParseBoolError => AtErrorView::ParseBoolError,
            AtError::ParseIntError(k) => AtErrorView::ParseIntError(*k),
            AtError::TomlError(m) => AtErrorView::TomlError(m@),
        }
    }
}

/// The result type of this library.
pub type AtResult<T> = Result<T, AtError>;

} // verus!
