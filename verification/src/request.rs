use crate::error::{EnvelopeFault, ErrorBag, Web3ProxyError};
use crate::json::{clone_items, JsonModel, JsonValue};
use crate::model::views;
use vstd::prelude::*;

verus! {

/// Mathematical model of one JSON-RPC call.
pub struct ParsedRequestModel {
    pub id: JsonModel,
    pub method: Seq<char>,
    pub params: Seq<JsonModel>,
}

/// One JSON-RPC call taken from a request body.
#[derive(Debug, PartialEq, Eq)]
pub struct ParsedRequest {
    /// The identifier, as the request gave it (`null` where it gave none).
    pub id: JsonValue,
    /// The name of the method.
    pub method: String,
    /// The arguments, in order.
    pub params: Vec<JsonValue>,
}

impl View for ParsedRequest {
    type V = ParsedRequestModel;

    open spec fn view(&self) -> ParsedRequestModel {
        ParsedRequestModel { id: self.id@, method: self.method@, params: views(self.params@) }
    }
}

impl Clone for ParsedRequest {
    /// A deep copy: the same call.
    fn clone(&self) -> (r: ParsedRequest)
        ensures
            r@ == self@,
    {
        ParsedRequest {
            id: self.id.clone(),
            method: self.method.clone(),
            params: clone_items(&self.params),
        }
    }
}

/// What the envelope parser makes of a decoded body: the calls it holds, or
/// the first rule that the body breaks.
///
/// A top-level array is a batch and yields no call. Anything else must have
/// a `jsonrpc` member that is the string `"2.0"`, a `method` member that is
/// a string and a `params` member that is an array; its `id` member is
/// taken as it stands and is `null` where absent.
pub open spec fn parse_request_spec(body: JsonModel) -> Result<
    Seq<ParsedRequestModel>,
    EnvelopeFault,
> {
    if body.is_array() {
        Ok(Seq::empty())
    } else if body.field("jsonrpc"@).as_str() is None {
        Err(EnvelopeFault::JsonrpcMissing)
    } else if body.field("jsonrpc"@).as_str() != Some("2.0"@) {
        Err(EnvelopeFault::JsonrpcNotTwo)
    } else if body.field("method"@).as_str() is None {
        Err(EnvelopeFault::MethodMissing)
    } else if body.field("params"@).as_array() is None {
        Err(EnvelopeFault::ParamsMissing)
    } else {
        Ok(
            seq![
                ParsedRequestModel {
                    id: body.field("id"@),
                    method: body.field("method"@).as_str()->0,
                    params: body.field("params"@).as_array()->0,
                },
            ],
        )
    }
}

/// The member's text where the member is a string.
fn string_member<'a>(body: &'a JsonValue, name: &str) -> (r: Option<&'a str>)
    ensures
        match r {
            Some(text) => body@.field(name@).as_str() == Some(text@),
            None => body@.field(name@).as_str() is None,
        },
{
    match body.member(name) {
        Some(value) => value.as_str(),
        None => None,
    }
}

/// The member's items where the member is an array.
fn array_member<'a>(body: &'a JsonValue, name: &str) -> (r: Option<&'a Vec<JsonValue>>)
    ensures
        match r {
            Some(items) => body@.field(name@).as_array() == Some(views(items@)),
            None => body@.field(name@).as_array() is None,
        },
{
    match body.member(name) {
        Some(value) => value.as_array(),
        None => None,
    }
}

/// Extracts the JSON-RPC calls from a decoded request body.
pub fn parse_request(parsed_body: &JsonValue) -> (r: Result<Vec<ParsedRequest>, Web3ProxyError>)
    ensures
        match r {
            Ok(requests) => parse_request_spec(parsed_body@) == Ok::<
                Seq<ParsedRequestModel>,
                EnvelopeFault,
            >(views(requests@)),
            Err(e) => parse_request_spec(parsed_body@) is Err && e.inner
                == ErrorBag::ValidationError(parse_request_spec(parsed_body@)->Err_0),
        },
{
    let mut parsed_requests: Vec<ParsedRequest> = Vec::new();
    if parsed_body.is_array() {
        assert(views(parsed_requests@) =~= Seq::empty());
        return Ok(parsed_requests);
    }
    let jsonrpc = match string_member(parsed_body, "jsonrpc") {
        Some(text) => text,
        None => {
            return Err(Web3ProxyError::new(ErrorBag::from(EnvelopeFault::JsonrpcMissing)));
        },
    };
    if jsonrpc.to_owned() != "2.0".to_owned() {
        return Err(Web3ProxyError::new(ErrorBag::from(EnvelopeFault::JsonrpcNotTwo)));
    }
    let rpc_id = match parsed_body.member("id") {
        Some(value) => value.clone(),
        None => JsonValue::Null,
    };
    let method = match string_member(parsed_body, "method") {
        Some(text) => text,
        None => {
            return Err(Web3ProxyError::new(ErrorBag::from(EnvelopeFault::MethodMissing)));
        },
    };
    let params = match array_member(parsed_body, "params") {
        Some(items) => items,
        None => {
            return Err(Web3ProxyError::new(ErrorBag::from(EnvelopeFault::ParamsMissing)));
        },
    };
    let request = ParsedRequest {
        id: rpc_id,
        method: method.to_owned(),
        params: clone_items(params),
    };
    proof {
        assert(views(parsed_requests@.push(request)) =~= seq![request@]);
    }
    parsed_requests.push(request);
    Ok(parsed_requests)
}

} // verus!
