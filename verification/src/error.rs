use vstd::prelude::*;

verus! {

/// Stands in for an underlying I/O failure, reduced to its message text.
#[derive(Debug)]
pub struct IOErrorWrapper {
    pub msg: String,
}

impl PartialEq for IOErrorWrapper {
    fn eq(&self, other: &Self) -> (r: bool) {
        self.msg == other.msg
    }
}

impl vstd::std_specs::cmp::PartialEqSpecImpl for IOErrorWrapper {
    open spec fn obeys_eq_spec() -> bool {
        true
    }

    open spec fn eq_spec(&self, other: &Self) -> bool {
        self.msg@ == other.msg@
    }
}

#[derive(Debug, PartialEq)]
pub enum Error {
    /// The string is not a legal HTTP verb.
    InvalidMethod(String),
    /// The HTTP request start line or headers are not legal US-ASCII.
    InvalidEncoding,
    /// Not yet implemented.
    NotImplemented,
    /// An underlying I/O error occurred.
    IOError(IOErrorWrapper),
    /// The start line exceeds the maximum length.
    StartLineExceedsMaxLength,
    /// The stream contained no bytes when it should.
    UnexpectedEndOfStream,
    /// As a whole, the entire headers section of the request is too long.
    HeadersSectionTooLong,
    /// The current header is too long.
    HeaderTooLong,
    /// The header is invalid.
    InvalidHeader,
    /// Not a valid HTTP version string.
    InvalidHttpVersion,
    /// Not a legal HTTP start line.
    InvalidStartLine,
    /// Not a legal target.
    InvalidTarget,
    /// Received a carriage return not followed by a line feed.
    UnexpectedCR,
    /// Failed to specify a bind address for the server.
    NoBindAddress,
    /// The connection closed: the normal end of a tunnel, not a failure.
    ConnectionClosed,
    /// The specified authority does not carry a port.
    MissingPort,
    /// Could not resolve the upstream host.
    DnsLookupFailed,
}

/// The mathematical model of an `Error`: the same variants, with the
/// carried strings abstracted to their character sequences.
pub ghost enum ErrV {
    InvalidMethod(Seq<char>),
    InvalidEncoding,
    NotImplemented,
    IOError(Seq<char>),
    StartLineExceedsMaxLength,
    UnexpectedEndOfStream,
    HeadersSectionTooLong,
    HeaderTooLong,
    InvalidHeader,
    InvalidHttpVersion,
    InvalidStartLine,
    InvalidTarget,
    UnexpectedCR,
    NoBindAddress,
    ConnectionClosed,
    MissingPort,
    DnsLookupFailed,
}

impl View for Error {
    type V = ErrV;

    open spec fn view(&self) -> ErrV {
        match self {
            Error::InvalidMethod(s) => ErrV::InvalidMethod(s@),
            Error::InvalidEncoding => ErrV::InvalidEncoding,
            Error::NotImplemented => ErrV::NotImplemented,
            Error::IOError(w) => ErrV::IOError(w.msg@),
            Error::StartLineExceedsMaxLength => ErrV::StartLineExceedsMaxLength,
            Error::UnexpectedEndOfStream => ErrV::UnexpectedEndOfStream,
            Error::HeadersSectionTooLong => ErrV::HeadersSectionTooLong,
            Error::HeaderTooLong => ErrV::HeaderTooLong,
            Error::InvalidHeader => ErrV::InvalidHeader,
            Error::InvalidHttpVersion => ErrV::InvalidHttpVersion,
            Error::InvalidStartLine => ErrV::InvalidStartLine,
            Error::InvalidTarget => ErrV::InvalidTarget,
            Error::UnexpectedCR => ErrV::UnexpectedCR,
            Error::NoBindAddress => ErrV::NoBindAddress,
            Error::ConnectionClosed => ErrV::ConnectionClosed,
            Error::MissingPort => ErrV::MissingPort,
            Error::DnsLookupFailed => ErrV::DnsLookupFailed,
        }
    }
}

/// The text that describes an error, as a sequence of characters.
pub open spec fn spec_describe(e: Error) -> Seq<char> {
    match e {
        Error::InvalidMethod(s) => "InvalidMethod("@ + s@ + ")"@,
        Error::InvalidEncoding => "InvalidEncoding"@,
        Error::NotImplemented => "NotImplemented"@,
        Error::IOError(w) => "IOError("@ + w.msg@ + ")"@,
        Error::StartLineExceedsMaxLength => "StartLineExceedsMaxLength"@,
        Error::UnexpectedEndOfStream => "UnexpectedEndOfStream"@,
        Error::HeadersSectionTooLong => "HeadersSectionTooLong"@,
        Error::HeaderTooLong => "HeaderTooLong"@,
        Error::InvalidHeader => "InvalidHeader"@,
        Error::InvalidHttpVersion => "InvalidHttpVersion"@,
        Error::InvalidStartLine => "InvalidStartLine"@,
        Error::InvalidTarget => "InvalidTarget"@,
        Error::UnexpectedCR => "UnexpectedCR"@,
        Error::NoBindAddress => "NoBindAddress"@,
        Error::ConnectionClosed => "ConnectionClosed"@,
        Error::MissingPort => "MissingPort"@,
        Error::DnsLookupFailed => "DnsLookupFailed"@,
    }
}

impl Error {
    /// A human-readable description of the error, fit for an HTTP body.
    pub fn describe(&self) -> (r: String)
        ensures
            r@ == spec_describe(*self),
    {
        match self {
            Error::InvalidMethod(s) => {
                let mut t = String::from_str("InvalidMethod(");
                t.append(s.as_str());
                t.append(")");
                t
            },
            Error::InvalidEncoding => String::from_str("InvalidEncoding"),
            Error::NotImplemented => String::from_str("NotImplemented"),
            Error::IOError(w) => {
                let mut t = String::from_str("IOError(");
                t.append(w.msg.as_str());
                t.append(")");
                t
            },
            Error::StartLineExceedsMaxLength => String::from_str("StartLineExceedsMaxLength"),
            Error::UnexpectedEndOfStream => String::from_str("UnexpectedEndOfStream"),
            Error::HeadersSectionTooLong => String::from_str("HeadersSectionTooLong"),
            Error::HeaderTooLong => String::from_str("HeaderTooLong"),
            Error::InvalidHeader => String::from_str("InvalidHeader"),
            Error::InvalidHttpVersion => String::from_str("InvalidHttpVersion"),
            Error::InvalidStartLine => String::from_str("InvalidStartLine"),
            Error::InvalidTarget => String::from_str("InvalidTarget"),
            Error::UnexpectedCR => String::from_str("UnexpectedCR"),
            Error::NoBindAddress => String::from_str("NoBindAddress"),
            Error::ConnectionClosed => String::from_str("ConnectionClosed"),
            Error::MissingPort => String::from_str("MissingPort"),
            Error::DnsLookupFailed => String::from_str("DnsLookupFailed"),
        }
    }
}

} // verus!
