use vstd::prelude::*;
use xz_decom::XZError;

verus! {

/// What went wrong while reading an archive.
#[derive(Debug, Clone, Copy, PartialEq, Eq, Structural)]
pub enum ErrorKind {
    /// The file could not be opened or mapped.
    Io,
    /// A structural invariant of the format does not hold.
    Format,
    /// A read would run past the end of the data, or a terminator is missing.
    Truncated,
    /// A string field is not valid UTF-8.
    Encoding,
    /// A compressed cluster body could not be decompressed.
    Codec,
    /// A directory entry names a mime type id that the archive does not have.
    MimeLookup,
}

/// An error type for parsing errors.
#[derive(Debug, Clone, Copy, PartialEq, Eq, Structural)]
pub struct ParsingError {
    pub kind: ErrorKind,
}

impl ParsingError {
    pub fn new(kind: ErrorKind) -> (r: ParsingError)
        ensures
            r.kind == kind,
    {
        ParsingError { kind }
    }

    /// A short description of the error.
    pub fn message(&self) -> (r: &'static str)
        ensures
            self.kind == ErrorKind::Io ==> r@ == "Error reading the archive file"@,
            self.kind == ErrorKind::Format ==> r@ == "Malformed archive"@,
            self.kind == ErrorKind::Truncated ==> r@ == "Error reading bytestream"@,
            self.kind == ErrorKind::Encoding ==> r@ == "Error converting to string"@,
            self.kind == ErrorKind::Codec ==> r@ == "Error decoding compressed data"@,
            self.kind == ErrorKind::MimeLookup ==> r@ == "No such Mimetype"@,
    {
        match self.kind {
            ErrorKind::Io => "Error reading the archive file",
            ErrorKind::Format => "Malformed archive",
            ErrorKind::Truncated => "Error reading bytestream",
            ErrorKind::Encoding => "Error converting to string",
            ErrorKind::Codec => "Error decoding compressed data",
            ErrorKind::MimeLookup => "No such Mimetype",
        }
    }
}

#[verifier::external_type_specification]
#[verifier::external_body]
pub struct ExXZError(XZError);

impl From<XZError> for ParsingError {
    fn from(e: XZError) -> (r: ParsingError) {
        ParsingError { kind: ErrorKind::Codec }
    }
}

impl vstd::std_specs::convert::FromSpecImpl<XZError> for ParsingError {
    open spec fn obeys_from_spec() -> bool {
        true
    }

    open spec fn from_spec(e: XZError) -> ParsingError {
        ParsingError { kind: ErrorKind::Codec }
    }
}

} // verus!
