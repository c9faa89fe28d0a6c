use crate::model::views;
use crate::request::{ParsedRequest, ParsedRequestModel};
use vstd::prelude::*;

verus! {

/// A moment in UTC: whole seconds since the Unix epoch and the nanoseconds
/// into the second.
#[derive(Debug, Clone, Copy, PartialEq, Eq)]
pub struct Timestamp {
    pub secs: i64,
    pub nanos: u32,
}

/// A span of wall-clock time: whole seconds and the nanoseconds beyond them.
#[derive(Debug, Clone, Copy, PartialEq, Eq)]
pub struct Elapsed {
    pub secs: u64,
    pub nanos: u32,
}

/// Mathematical model of one completed forward attempt.
pub struct CallInfoModel {
    pub request: Option<Seq<char>>,
    pub response: Option<Seq<char>>,
    pub parsed_request: Seq<ParsedRequestModel>,
    pub date: Timestamp,
    pub response_time: Elapsed,
}

/// One completed forward attempt.
#[derive(Debug, PartialEq, Eq)]
pub struct CallInfo {
    /// The request body as text.
    pub request: Option<String>,
    /// The response body as text; absent where the call failed locally.
    pub response: Option<String>,
    /// The calls found in the request body; empty where it held no
    /// well-formed envelope.
    pub parsed_request: Vec<ParsedRequest>,
    /// When the call started.
    pub date: Timestamp,
    /// How long the forward call took.
    pub response_time: Elapsed,
}

/// The text an optional string stands for.
pub open spec fn text_of(text: Option<String>) -> Option<Seq<char>> {
    match text {
        Some(s) => Some(s@),
        None => None,
    }
}

impl View for CallInfo {
    type V = CallInfoModel;

    open spec fn view(&self) -> CallInfoModel {
        CallInfoModel {
            request: text_of(self.request),
            response: text_of(self.response),
            parsed_request: views(self.parsed_request@),
            date: self.date,
            response_time: self.response_time,
        }
    }
}

/// Copies an optional text.
fn clone_text(text: &Option<String>) -> (copy: Option<String>)
    ensures
        text_of(copy) == text_of(*text),
{
    match text {
        Some(s) => Some(s.clone()),
        None => None,
    }
}

/// Copies a run of parsed calls one by one.
fn clone_requests(requests: &Vec<ParsedRequest>) -> (copy: Vec<ParsedRequest>)
    ensures
        views(copy@) == views(requests@),
{
    let mut copy: Vec<ParsedRequest> = Vec::new();
    let mut i: usize = 0;
    while i < requests.len()
        invariant
            i <= requests.len(),
            copy.len() == i,
            forall|j: int| 0 <= j < i ==> (#[trigger] copy@[j])@ == requests@[j]@,
        decreases requests.len() - i,
    {
        copy.push(requests[i].clone());
        i += 1;
    }
    copy
}

impl Clone for CallInfo {
    /// A deep copy: the same record.
    fn clone(&self) -> (r: CallInfo)
        ensures
            r@ == self@,
    {
        CallInfo {
            request: clone_text(&self.request),
            response: clone_text(&self.response),
            parsed_request: clone_requests(&self.parsed_request),
            date: self.date,
            response_time: self.response_time,
        }
    }
}

/// Mathematical model of one entry of the method listing.
pub struct MethodInfoModel {
    pub id: Seq<char>,
    pub method: Seq<char>,
    pub date: Timestamp,
    pub response_time: Elapsed,
}

/// One parsed call of a recorded forward attempt, with the attempt's start
/// and duration.
#[derive(Debug, PartialEq, Eq)]
pub struct MethodInfo {
    /// The identifier, as compact JSON text.
    pub id: String,
    /// The name of the method.
    pub method: String,
    /// When the owning call started.
    pub date: Timestamp,
    /// How long the owning call took.
    pub response_time: Elapsed,
}

impl View for MethodInfo {
    type V = MethodInfoModel;

    open spec fn view(&self) -> MethodInfoModel {
        MethodInfoModel {
            id: self.id@,
            method: self.method@,
            date: self.date,
            response_time: self.response_time,
        }
    }
}

} // verus!
