use crate::call::{CallInfo, CallInfoModel, Elapsed, Timestamp};
use crate::error::{message_of, DecodingFault, ErrorBag, UpstreamFault, Web3ProxyError};
use crate::json::{json_parse, json_print, JsonModel, JsonValue};
use crate::model::views;
use crate::registry::{RegistryModel, SharedData};
use crate::request::{parse_request, parse_request_spec, ParsedRequest, ParsedRequestModel};
use vstd::prelude::*;
use vstd::utf8::{decode_utf8, valid_utf8};

verus! {

/// The status reported for every local failure.
pub const LOCAL_FAILURE: u16 = 500;

/// `std::string::FromUtf8Error`, the reason bytes were refused as text.
#[verifier::external_type_specification]
#[verifier::external_body]
pub struct ExUtf8Error(std::string::FromUtf8Error);

/// `String::from_utf8` succeeds exactly on well-formed UTF-8 and then holds
/// the text that the bytes encode.
pub assume_specification[ std::string::String::from_utf8 ](vec: Vec<u8>) -> (r: Result<
    std::string::String,
    std::string::FromUtf8Error,
>)
    ensures
        r is Ok <==> valid_utf8(vec@),
        r matches Ok(text) ==> text@ == decode_utf8(vec@),
;

/// Calls `to_string` of `FromUtf8Error`: the message with the place of the
/// first bad byte. Nothing is claimed of the text.
#[verifier::external_body]
fn utf8_error_text(error: &std::string::FromUtf8Error) -> String {
    error.to_string()
}

/// The document a request body holds: `None` where the bytes are not UTF-8
/// or the text is not JSON.
pub open spec fn decode_spec(body: Seq<u8>) -> Option<JsonModel> {
    if valid_utf8(body) {
        json_parse(decode_utf8(body))
    } else {
        None
    }
}

/// Decodes a request body as UTF-8 text and then as JSON.
pub fn decode_body(body: Vec<u8>) -> (r: Result<(String, JsonValue), Web3ProxyError>)
    ensures
        match r {
            Ok((text, document)) => valid_utf8(body@) && text@ == decode_utf8(body@)
                && decode_spec(body@) == Some(document@),
            Err(e) => decode_spec(body@) is None && if valid_utf8(body@) {
                e.inner matches ErrorBag::DecodingError(DecodingFault::NotJson(_))
            } else {
                e.inner matches ErrorBag::DecodingError(DecodingFault::NotUtf8(_))
            },
        },
{
    let text = match String::from_utf8(body) {
        Ok(text) => text,
        Err(error) => {
            let detail = utf8_error_text(&error);
            return Err(Web3ProxyError::new(ErrorBag::from(DecodingFault::NotUtf8(detail))));
        },
    };
    match JsonValue::parse(text.as_str()) {
        Ok(document) => Ok((text, document)),
        Err(e) => Err(e),
    }
}

/// The calls the proxy records for a decoded body: those the envelope
/// parser finds, and none where it refuses the body.
pub open spec fn recorded_requests(document: JsonModel) -> Seq<ParsedRequestModel> {
    match parse_request_spec(document) {
        Ok(requests) => requests,
        Err(_) => Seq::empty(),
    }
}

/// Mathematical model of a request that is ready to be forwarded.
pub struct PendingCallModel {
    pub key: Seq<char>,
    pub request: Seq<char>,
    pub payload: JsonModel,
    pub parsed_request: Seq<ParsedRequestModel>,
}

/// A request that was decoded and is ready to be forwarded.
#[derive(Debug, PartialEq, Eq)]
pub struct PendingCall {
    /// The client's key.
    pub key: String,
    /// The request body as text.
    pub request: String,
    /// The request body as a document: what is sent upstream.
    pub payload: JsonValue,
    /// The calls found in the body; empty where the envelope is malformed.
    pub parsed_request: Vec<ParsedRequest>,
}

impl View for PendingCall {
    type V = PendingCallModel;

    open spec fn view(&self) -> PendingCallModel {
        PendingCallModel {
            key: self.key@,
            request: self.request@,
            payload: self.payload@,
            parsed_request: views(self.parsed_request@),
        }
    }
}

/// The pending call that a key and a body give, where the body decodes.
pub open spec fn begin_call_spec(key: Seq<char>, body: Seq<u8>) -> Option<PendingCallModel> {
    match decode_spec(body) {
        Some(document) => Some(
            PendingCallModel {
                key,
                request: decode_utf8(body),
                payload: document,
                parsed_request: recorded_requests(document),
            },
        ),
        None => None,
    }
}

/// Prepares a request for forwarding: decodes the body and looks for the
/// JSON-RPC envelope. A body that does not decode is refused; a malformed
/// envelope is not, and leaves the list of parsed calls empty. The
/// registry is not involved.
pub fn begin_call(key: &str, body: Vec<u8>) -> (r: Result<PendingCall, Web3ProxyError>)
    ensures
        match r {
            Ok(pending) => begin_call_spec(key@, body@) == Some(pending@),
            Err(e) => begin_call_spec(key@, body@) is None && if valid_utf8(body@) {
                e.inner matches ErrorBag::DecodingError(DecodingFault::NotJson(_))
            } else {
                e.inner matches ErrorBag::DecodingError(DecodingFault::NotUtf8(_))
            },
        },
{
    let (request, payload) = match decode_body(body) {
        Ok(decoded) => decoded,
        Err(e) => {
            return Err(e);
        },
    };
    let parsed_request = match parse_request(&payload) {
        Ok(requests) => requests,
        Err(_) => {
            let none: Vec<ParsedRequest> = Vec::new();
            assert(views(none@) =~= Seq::empty());
            none
        },
    };
    Ok(PendingCall { key: key.to_owned(), request, payload, parsed_request })
}

/// A request that has been counted in the registry and may be forwarded.
/// Only [`admit_call`] makes one, so that no call is recorded that was not
/// counted first.
#[derive(Debug, PartialEq, Eq)]
pub struct AdmittedCall {
    pending: PendingCall,
}

impl View for AdmittedCall {
    type V = PendingCallModel;

    closed spec fn view(&self) -> PendingCallModel {
        self.pending@
    }
}

impl AdmittedCall {
    /// The request as it was prepared.
    pub fn pending(&self) -> (r: &PendingCall)
        ensures
            r@ == self@,
    {
        &self.pending
    }
}

/// Counts a prepared request for its key: the first of the two short
/// sections that need the registry to themselves. A key seen for the first
/// time gets its record here.
pub fn admit_call(registry: &mut SharedData, pending: PendingCall) -> (r: AdmittedCall)
    ensures
        final(registry)@ == old(registry)@.record_request_seen(pending.key@),
        final(registry)@.well_formed(),
        r@ == pending@,
{
    registry.record_request_seen(pending.key.as_str());
    AdmittedCall { pending }
}

/// The body that is posted upstream for a call: its document as compact
/// JSON text.
pub fn forward_payload(call: &AdmittedCall) -> (r: String)
    ensures
        r@ == json_print(call@.payload),
{
    call.pending.payload.to_text()
}

/// Mathematical model of what came back from the upstream call.
pub enum UpstreamReplyModel {
    Unreachable,
    BodyLost,
    Answered { status: u16, body: Seq<u8> },
}

/// What came back from the upstream call.
#[derive(Debug, PartialEq, Eq)]
pub enum UpstreamReply {
    /// The request could not be sent, or no response arrived.
    Unreachable,
    /// A response arrived but its body could not be read to the end.
    BodyLost,
    /// A response arrived with this status and these body bytes.
    Answered { status: u16, body: Vec<u8> },
}

impl View for UpstreamReply {
    type V = UpstreamReplyModel;

    open spec fn view(&self) -> UpstreamReplyModel {
        match self {
            UpstreamReply::Unreachable => UpstreamReplyModel::Unreachable,
            UpstreamReply::BodyLost => UpstreamReplyModel::BodyLost,
            UpstreamReply::Answered { status, body } => UpstreamReplyModel::Answered {
                status: *status,
                body: body@,
            },
        }
    }
}

/// Mathematical model of the forwarder's result.
pub struct ForwardResultModel {
    pub status: u16,
    pub body: Result<Seq<char>, ErrorBag>,
}

/// The forwarder's result: a status and the response body, or the error
/// that tells why there is none.
#[derive(Debug, PartialEq, Eq)]
pub struct ForwardResult {
    pub status: u16,
    pub body: Result<String, Web3ProxyError>,
}

impl View for ForwardResult {
    type V = ForwardResultModel;

    open spec fn view(&self) -> ForwardResultModel {
        ForwardResultModel {
            status: self.status,
            body: match self.body {
                Ok(text) => Ok(text@),
                Err(error) => Err(error.inner),
            },
        }
    }
}

/// The result of an attempt that failed locally for the given reason.
pub open spec fn local_failure(fault: UpstreamFault) -> ForwardResultModel {
    ForwardResultModel { status: LOCAL_FAILURE, body: Err(ErrorBag::UpstreamError(fault)) }
}

/// The result of an attempt that failed locally for the given reason.
fn failed(fault: UpstreamFault) -> (r: ForwardResult)
    ensures
        r@ == local_failure(fault),
{
    ForwardResult { status: LOCAL_FAILURE, body: Err(Web3ProxyError::new(ErrorBag::from(fault))) }
}

/// The result of a forward attempt: the upstream's status and body where a
/// body came back as UTF-8 text, and the local failure status with the
/// reason in every other case.
pub open spec fn forward_result_spec(reply: UpstreamReplyModel) -> ForwardResultModel {
    match reply {
        UpstreamReplyModel::Unreachable => local_failure(UpstreamFault::Transport),
        UpstreamReplyModel::BodyLost => local_failure(UpstreamFault::BodyRead),
        UpstreamReplyModel::Answered { status, body } => if valid_utf8(body) {
            ForwardResultModel { status, body: Ok(decode_utf8(body)) }
        } else {
            local_failure(UpstreamFault::NotUtf8)
        },
    }
}

/// Turns what came back from upstream into the forwarder's result.
pub fn forward_result(reply: UpstreamReply) -> (r: ForwardResult)
    ensures
        r@ == forward_result_spec(reply@),
{
    match reply {
        UpstreamReply::Unreachable => failed(UpstreamFault::Transport),
        UpstreamReply::BodyLost => failed(UpstreamFault::BodyRead),
        UpstreamReply::Answered { status, body } => match String::from_utf8(body) {
            Ok(text) => ForwardResult { status, body: Ok(text) },
            Err(_) => failed(UpstreamFault::NotUtf8),
        },
    }
}

/// Mathematical model of the answer given to the client.
pub struct ProxyResponseModel {
    pub status: u16,
    pub body: Option<Seq<char>>,
}

/// The answer given to the client of the proxy.
#[derive(Debug, PartialEq, Eq)]
pub struct ProxyResponse {
    pub status: u16,
    /// The body; a response without a body where absent.
    pub body: Option<String>,
}

impl View for ProxyResponse {
    type V = ProxyResponseModel;

    open spec fn view(&self) -> ProxyResponseModel {
        ProxyResponseModel {
            status: self.status,
            body: match self.body {
                Some(text) => Some(text@),
                None => None,
            },
        }
    }
}

/// The response body that a forward result carries, if it carries one.
pub open spec fn body_of(result: ForwardResultModel) -> Option<Seq<char>> {
    match result.body {
        Ok(text) => Some(text),
        Err(_) => None,
    }
}

/// The record of a forward attempt: the request as text, the response body
/// where one came back, the parsed calls, the start and the duration.
pub open spec fn call_record(
    pending: PendingCallModel,
    date: Timestamp,
    response_time: Elapsed,
    result: ForwardResultModel,
) -> CallInfoModel {
    CallInfoModel {
        request: Some(pending.request),
        response: body_of(result),
        parsed_request: pending.parsed_request,
        date,
        response_time,
    }
}

/// The answer to the client once the attempt is recorded: the forward
/// result's status, with its body where it has one. Where the key has no
/// record, which the counting of the request rules out, the answer is the
/// local failure status with the error's text.
pub open spec fn response_spec(
    registry: RegistryModel,
    key: Seq<char>,
    result: ForwardResultModel,
) -> ProxyResponseModel {
    if registry.records.contains_key(key) {
        ProxyResponseModel { status: result.status, body: body_of(result) }
    } else {
        ProxyResponseModel {
            status: LOCAL_FAILURE,
            body: Some(message_of(ErrorBag::NotFoundError)),
        }
    }
}

/// Records a forward attempt and says what to answer: the second of the two
/// short sections that need the registry to themselves. It takes the
/// forwarder's result as it is; it waits for nothing.
pub fn complete_call(
    registry: &mut SharedData,
    call: AdmittedCall,
    date: Timestamp,
    response_time: Elapsed,
    result: ForwardResult,
) -> (r: ProxyResponse)
    ensures
        final(registry)@ == old(registry)@.append_call(
            call@.key,
            call_record(call@, date, response_time, result@),
        ),
        final(registry)@.well_formed(),
        r@ == response_spec(old(registry)@, call@.key, result@),
{
    let pending = call.pending;
    let response = match &result.body {
        Ok(text) => Some(text.clone()),
        Err(_) => None,
    };
    let body = match result.body {
        Ok(text) => Some(text),
        Err(_) => None,
    };
    let record = CallInfo {
        request: Some(pending.request),
        response,
        parsed_request: pending.parsed_request,
        date,
        response_time,
    };
    match registry.append_call(pending.key.as_str(), record) {
        Ok(()) => ProxyResponse { status: result.status, body },
        Err(e) => ProxyResponse { status: LOCAL_FAILURE, body: Some(e.message()) },
    }
}

/// Serves one request from its arrival to its answer, given what the
/// upstream call brings: the steps of the proxy endpoint in their order. A
/// body that does not decode is answered with the local failure status and
/// the error's text, and leaves the registry as it was. Any other request
/// is counted, recorded with the outcome of the upstream call, and answered
/// with that outcome.
///
/// A server that must not keep the registry to itself while it waits for
/// the upstream takes the steps one by one instead: [`begin_call`],
/// [`admit_call`], [`forward_result`] and [`complete_call`].
pub fn web3(
    registry: &mut SharedData,
    key: &str,
    body: Vec<u8>,
    date: Timestamp,
    response_time: Elapsed,
    reply: UpstreamReply,
) -> (r: ProxyResponse)
    ensures
        match begin_call_spec(key@, body@) {
            Some(pending) => {
                let result = forward_result_spec(reply@);
                &&& final(registry)@.well_formed()
                &&& final(registry)@ == old(registry)@.record_request_seen(key@).append_call(
                    key@,
                    call_record(pending, date, response_time, result),
                )
                &&& r@ == ProxyResponseModel { status: result.status, body: body_of(result) }
            },
            None => {
                &&& final(registry)@ == old(registry)@
                &&& r.status == LOCAL_FAILURE
                &&& r.body is Some
            },
        },
{
    match begin_call(key, body) {
        Ok(pending) => {
            let call = admit_call(registry, pending);
            let result = forward_result(reply);
            complete_call(registry, call, date, response_time, result)
        },
        Err(e) => ProxyResponse { status: LOCAL_FAILURE, body: Some(e.message()) },
    }
}

} // verus!
