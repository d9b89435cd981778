use vstd::prelude::*;

verus! {

/// The ways in which an operation on the registry can fail.
#[derive(Clone, Copy, Debug, Eq, Hash, Ord, PartialEq, PartialOrd, Structural)]
pub enum ErrorKind {
    /// No year, month or day offset was given for a new entry.
    NoTimeSpecified,
    /// The expiration date cannot be represented.
    InvalidTime,
    /// The path could not be expanded or resolved to an absolute path.
    CantGetAbsPath,
    /// A record could not be written as a line.
    WrongFormat,
    /// The log could not be appended to or rewritten.
    CantWriteToFile,
    /// An element is missing from the log.
    CantFindElement,
    /// The object on the filesystem, or its record in the log, does not exist.
    FileNotFound,
    /// The log could not be opened.
    CantOpenFile,
}

impl ErrorKind {
    /// The message of each kind of error.
    pub open spec fn message(self) -> Seq<char> {
        match self {
            ErrorKind::NoTimeSpecified => "No expiration time specified"@,
            ErrorKind::InvalidTime => "The time entered is invalid"@,
            ErrorKind::CantGetAbsPath => "Cannot get absolute path from relative"@,
            ErrorKind::WrongFormat => "Wrong data format, cannot parse"@,
            ErrorKind::CantWriteToFile => "Cannot write to file"@,
            ErrorKind::CantFindElement => "Cannot find element in file"@,
            ErrorKind::FileNotFound => "File not found on filesystem"@,
            ErrorKind::CantOpenFile => "Cannot open file"@,
        }
    }

    /// The message to show for this error.
    pub fn as_str(&self) -> (text: &'static str)
        ensures
            text@ == self.message(),
    {
        match self {
            ErrorKind::NoTimeSpecified => "No expiration time specified",
            ErrorKind::InvalidTime => "The time entered is invalid",
            ErrorKind::CantGetAbsPath => "Cannot get absolute path from relative",
            ErrorKind::WrongFormat => "Wrong data format, cannot parse",
            ErrorKind::CantWriteToFile => "Cannot write to file",
            ErrorKind::CantFindElement => "Cannot find element in file",
            ErrorKind::FileNotFound => "File not found on filesystem",
            ErrorKind::CantOpenFile => "Cannot open file",
        }
    }
}

} // verus!
