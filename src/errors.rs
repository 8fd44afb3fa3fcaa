use vstd::prelude::*;

verus! {

/// What can go wrong while resolving or parsing a WHOIS response.
#[derive(Clone, Copy, Debug, PartialEq, Eq, Structural)]
pub enum WhoisError {
    /// A round trip to a WHOIS server failed (refused, reset, timed out).
    NoTransport,
    /// A round trip succeeded but the server sent no bytes at all.
    EmptyResponse,
    /// A referral line is present but no newline ends its value.
    MalformedReferral,
    /// A referral has to be followed but the configured server has no port.
    MissingPort,
    /// The response bytes are not valid UTF-8.
    InvalidEncoding,
}

/// The description of each error.
pub open spec fn message_of(e: WhoisError) -> Seq<char> {
    match e {
        WhoisError::NoTransport => "Error caused by I/O on the WHOIS server"@,
        WhoisError::EmptyResponse => "Wrote to WHOIS server, but got no response"@,
        WhoisError::MalformedReferral => "couldn't find newline seperator"@,
        WhoisError::MissingPort => "whois server should be in host:port format"@,
        WhoisError::InvalidEncoding => "WHOIS response is not valid UTF-8"@,
    }
}

impl WhoisError {
    /// A short human-readable description of the error.
    pub fn message(&self) -> (r: &'static str)
        ensures
            r@ == message_of(*self),
    {
        match self {
            WhoisError::NoTransport => "Error caused by I/O on the WHOIS server",
            WhoisError::EmptyResponse => "Wrote to WHOIS server, but got no response",
            WhoisError::MalformedReferral => "couldn't find newline seperator",
            WhoisError::MissingPort => "whois server should be in host:port format",
            WhoisError::InvalidEncoding => "WHOIS response is not valid UTF-8",
        }
    }
}

} // verus!
