use vstd::prelude::*;
use vstd::std_specs::convert::FromSpecImpl;

verus! {

/// The rule of the JSON-RPC envelope that a request body broke.
#[derive(Debug, Clone, Copy, PartialEq, Eq)]
pub enum EnvelopeFault {
    /// No `jsonrpc` member, or one that is not a string.
    JsonrpcMissing,
    /// A `jsonrpc` member other than `"2.0"`.
    JsonrpcNotTwo,
    /// No `method` member, or one that is not a string.
    MethodMissing,
    /// No `params` member, or one that is not an array.
    ParamsMissing,
}

/// Why a request body could not be decoded.
#[derive(Debug, Clone, PartialEq, Eq)]
pub enum DecodingFault {
    /// The bytes are not UTF-8; the text says where they stop being so.
    NotUtf8(String),
    /// The text is not JSON; the text says where it stops being so.
    NotJson(String),
}

/// Why the upstream call gave no response body.
#[derive(Debug, Clone, Copy, PartialEq, Eq)]
pub enum UpstreamFault {
    /// The request could not be sent or no response came back.
    Transport,
    /// The response body could not be read to its end.
    BodyRead,
    /// The response body is not UTF-8.
    NotUtf8,
}

/// Every error of the library, by kind.
#[derive(Debug, Clone, PartialEq, Eq)]
pub enum ErrorBag {
    /// Malformed JSON-RPC envelope.
    ValidationError(EnvelopeFault),
    /// Body that is not UTF-8 text or not JSON.
    DecodingError(DecodingFault),
    /// Local failure of the upstream call.
    UpstreamError(UpstreamFault),
    /// No record exists for the key.
    NotFoundError,
}

/// The error type of every fallible function of the library.
#[derive(Debug, Clone, PartialEq, Eq)]
pub struct Web3ProxyError {
    pub inner: ErrorBag,
}

/// The text reported for an error.
pub open spec fn message_of(error: ErrorBag) -> Seq<char> {
    match error {
        ErrorBag::ValidationError(EnvelopeFault::JsonrpcMissing) => "jsonrpc field is missing"@,
        ErrorBag::ValidationError(EnvelopeFault::JsonrpcNotTwo) => "jsonrpc field is not 2.0"@,
        ErrorBag::ValidationError(EnvelopeFault::MethodMissing) => "method field is missing"@,
        ErrorBag::ValidationError(EnvelopeFault::ParamsMissing) => "params field is missing"@,
        ErrorBag::DecodingError(DecodingFault::NotUtf8(detail)) => detail@,
        ErrorBag::DecodingError(DecodingFault::NotJson(detail)) => detail@,
        ErrorBag::UpstreamError(UpstreamFault::Transport) => "Error sending request upstream"@,
        ErrorBag::UpstreamError(UpstreamFault::BodyRead) => "Error getting body"@,
        ErrorBag::UpstreamError(UpstreamFault::NotUtf8) => "Error getting body: invalid utf-8"@,
        ErrorBag::NotFoundError => "Key not found"@,
    }
}

impl ErrorBag {
    /// The text reported for this error.
    pub fn message(&self) -> (r: String)
        ensures
            r@ == message_of(*self),
    {
        match self {
            ErrorBag::ValidationError(EnvelopeFault::JsonrpcMissing) => {
                "jsonrpc field is missing".to_owned()
            },
            ErrorBag::ValidationError(EnvelopeFault::JsonrpcNotTwo) => {
                "jsonrpc field is not 2.0".to_owned()
            },
            ErrorBag::ValidationError(EnvelopeFault::MethodMissing) => {
                "method field is missing".to_owned()
            },
            ErrorBag::ValidationError(EnvelopeFault::ParamsMissing) => {
                "params field is missing".to_owned()
            },
            ErrorBag::DecodingError(DecodingFault::NotUtf8(detail)) => detail.clone(),
            ErrorBag::DecodingError(DecodingFault::NotJson(detail)) => detail.clone(),
            ErrorBag::UpstreamError(UpstreamFault::Transport) => {
                "Error sending request upstream".to_owned()
            },
            ErrorBag::UpstreamError(UpstreamFault::BodyRead) => "Error getting body".to_owned(),
            ErrorBag::UpstreamError(UpstreamFault::NotUtf8) => {
                "Error getting body: invalid utf-8".to_owned()
            },
            ErrorBag::NotFoundError => "Key not found".to_owned(),
        }
    }
}

impl From<EnvelopeFault> for ErrorBag {
    fn from(fault: EnvelopeFault) -> (r: ErrorBag) {
        ErrorBag::ValidationError(fault)
    }
}

impl FromSpecImpl<EnvelopeFault> for ErrorBag {
    open spec fn obeys_from_spec() -> bool {
        true
    }

    open spec fn from_spec(fault: EnvelopeFault) -> ErrorBag {
        ErrorBag::ValidationError(fault)
    }
}

impl From<DecodingFault> for ErrorBag {
    fn from(fault: DecodingFault) -> (r: ErrorBag) {
        ErrorBag::DecodingError(fault)
    }
}

impl FromSpecImpl<DecodingFault> for ErrorBag {
    open spec fn obeys_from_spec() -> bool {
        true
    }

    open spec fn from_spec(fault: DecodingFault) -> ErrorBag {
        ErrorBag::DecodingError(fault)
    }
}

impl From<UpstreamFault> for ErrorBag {
    fn from(fault: UpstreamFault) -> (r: ErrorBag) {
        ErrorBag::UpstreamError(fault)
    }
}

impl FromSpecImpl<UpstreamFault> for ErrorBag {
    open spec fn obeys_from_spec() -> bool {
        true
    }

    open spec fn from_spec(fault: UpstreamFault) -> ErrorBag {
        ErrorBag::UpstreamError(fault)
    }
}

impl Web3ProxyError {
    /// An error of the given kind.
    pub fn new(inner: ErrorBag) -> (r: Web3ProxyError)
        ensures
            r.inner == inner,
    {
        Web3ProxyError { inner }
    }

    /// The text reported for this error.
    pub fn message(&self) -> (r: String)
        ensures
            r@ == message_of(self.inner),
    {
        self.inner.message()
    }
}

} // verus!
