//! The ways in which a configuration or a command stream is rejected.
use vstd::prelude::*;

verus! {

/// The two kinds of rejection.
#[derive(Clone, Copy, Debug, PartialEq, Eq, Structural)]
pub enum ErrorKind {
    /// The configuration is at fault.
    BadConfig,
    /// The command stream is at fault.
    ParseError,
}

/// Why a configuration or a command stream was rejected.
#[derive(Clone, Copy, Debug, PartialEq, Eq, Structural)]
pub enum Error {
    /// The settings text is not a JSON document of the expected shape.
    MalformedSettings,
    /// `initialText` is neither a string nor an array of strings.
    InitialTextShape,
    /// `useElem` names no shape kind.
    UnknownElem,
    /// A parameter name that the shape does not have.
    UnknownParam,
    /// A command word that the settings do not define.
    UnknownCommand,
    /// The argument of `update` is an infinity or a NaN.
    NonFiniteTime,
    /// The words ended before the word of a parameter was read. `input` is
    /// the place of the parameter in the list that was being read: the
    /// inputs of the command, or its defaults where the words of a default
    /// ran out. The one word of `update` has the place 0, and so have points
    /// that are read on their own.
    MissingWord { input: usize },
    /// Fewer than two of left, right, width and centerX are set.
    UndeterminedWidth,
    /// Fewer than two of top, bottom, height and centerY are set.
    UndeterminedHeight,
    /// A word that should be a number is none.
    BadNumber,
    /// A word that should be a color is none.
    BadColor,
    /// `points` was met before `n` was set.
    PointsBeforeCount,
}

impl Error {
    pub open spec fn spec_kind(self) -> ErrorKind {
        match self {
            Error::MalformedSettings => ErrorKind::BadConfig,
            Error::InitialTextShape => ErrorKind::BadConfig,
            Error::UnknownElem => ErrorKind::BadConfig,
            Error::UnknownParam => ErrorKind::BadConfig,
            _ => ErrorKind::ParseError,
        }
    }

    /// The kind of the rejection.
    #[verifier::when_used_as_spec(spec_kind)]
    pub fn kind(self) -> (k: ErrorKind)
        ensures
            k == self.spec_kind(),
    {
        match self {
            Error::MalformedSettings => ErrorKind::BadConfig,
            Error::InitialTextShape => ErrorKind::BadConfig,
            Error::UnknownElem => ErrorKind::BadConfig,
            Error::UnknownParam => ErrorKind::BadConfig,
            _ => ErrorKind::ParseError,
        }
    }
}

} // verus!
