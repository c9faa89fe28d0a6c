use crate::call::{CallInfo, CallInfoModel, MethodInfo, MethodInfoModel};
use crate::error::{message_of, ErrorBag};
use crate::model::views;
use crate::registry::{limit_of, SharedData};
use vstd::prelude::*;
use vstd::string::StringSliceAdditionalSpecFns;

verus! {

/// The byte of the sign `+`.
pub const PLUS: u8 = 43;

/// The byte of the digit `0`.
pub const ZERO: u8 = 48;

/// The byte of the digit `9`.
pub const NINE: u8 = 57;

/// Whether a byte is an ASCII decimal digit.
pub open spec fn is_digit(byte: u8) -> bool {
    ZERO <= byte <= NINE
}

/// Whether every byte is an ASCII decimal digit.
pub open spec fn all_digits(bytes: Seq<u8>) -> bool {
    forall|i: int| 0 <= i < bytes.len() ==> is_digit(#[trigger] bytes[i])
}

/// The number that a run of decimal digits writes.
pub open spec fn digits_value(digits: Seq<u8>) -> nat
    decreases digits.len(),
{
    if digits.len() == 0 {
        0
    } else {
        let last: nat = if is_digit(digits.last()) {
            (digits.last() - ZERO) as nat
        } else {
            0
        };
        digits_value(digits.drop_last()) * 10 + last
    }
}

/// The digits of a number's text: the text without one leading `+`.
pub open spec fn digits_of(text: Seq<u8>) -> Seq<u8> {
    if text.len() > 0 && text[0] == PLUS {
        text.drop_first()
    } else {
        text
    }
}

/// The limit that a path segment asks for: the number it writes in decimal
/// digits, after at most one `+`, where that number fits a `usize`. Any
/// other text, and no text, asks for no limit.
pub open spec fn limit_spec(segment: Option<Seq<u8>>) -> Option<nat> {
    match segment {
        Some(text) => {
            let digits = digits_of(text);
            if digits.len() > 0 && all_digits(digits) && digits_value(digits) <= usize::MAX {
                Some(digits_value(digits))
            } else {
                None
            }
        },
        None => None,
    }
}

/// A run of digits writes no smaller a number than any of its beginnings.
proof fn lemma_value_grows(digits: Seq<u8>, k: int)
    requires
        0 <= k <= digits.len(),
    ensures
        digits_value(digits.take(k)) <= digits_value(digits),
    decreases digits.len(),
{
    if k == digits.len() {
        assert(digits.take(k) =~= digits);
    } else {
        lemma_value_grows(digits.drop_last(), k);
        assert(digits.drop_last().take(k) =~= digits.take(k));
    }
}

/// One more digit multiplies the number by ten and adds the digit.
proof fn lemma_value_push(digits: Seq<u8>, digit: u8)
    requires
        is_digit(digit),
    ensures
        digits_value(digits.push(digit)) == digits_value(digits) * 10 + (digit - ZERO),
{
    assert(digits.push(digit).drop_last() =~= digits);
}

/// Reads the limit that a path segment asks for.
pub fn parse_limit(text: &str) -> (r: Option<usize>)
    ensures
        limit_of(r) == limit_spec(Some(text.spec_bytes())),
{
    let bytes = text.as_bytes();
    let n = bytes.len();
    let start: usize = if n > 0 && bytes[0] == PLUS {
        1
    } else {
        0
    };
    let ghost digits = digits_of(bytes@);
    if start == n {
        return None;
    }
    let mut value: usize = 0;
    let mut i: usize = start;
    while i < n
        invariant
            start <= i <= n,
            n == bytes@.len(),
            digits == digits_of(text.spec_bytes()),
            digits.len() == n - start,
            forall|j: int| 0 <= j < digits.len() ==> #[trigger] digits[j] == bytes@[start + j],
            all_digits(digits.take(i - start)),
            value == digits_value(digits.take(i - start)),
        decreases n - i,
    {
        let byte = bytes[i];
        let ghost seen = digits.take(i - start);
        let ghost next = digits.take(i + 1 - start);
        assert(digits[i - start] == byte);
        assert(next =~= seen.push(byte));
        if byte < ZERO || byte > NINE {
            return None;
        }
        let digit: usize = (byte - ZERO) as usize;
        proof {
            lemma_value_push(seen, byte);
            lemma_value_grows(digits, i + 1 - start);
        }
        let tens = match value.checked_mul(10) {
            Some(tens) => tens,
            None => {
                return None;
            },
        };
        value = match tens.checked_add(digit) {
            Some(sum) => sum,
            None => {
                return None;
            },
        };
        assert forall|j: int| 0 <= j < next.len() implies is_digit(#[trigger] next[j]) by {
            if j < seen.len() {
                assert(next[j] == seen[j]);
            }
        }
        i += 1;
    }
    assert(digits.take(i - start) =~= digits);
    Some(value)
}

/// The limit that an optional path segment asks for: none where the
/// segment is absent or does not write a number.
pub fn limit_from_segment(segment: Option<&str>) -> (r: Option<usize>)
    ensures
        limit_of(r) == limit_spec(segment_bytes(segment)),
{
    match segment {
        Some(text) => parse_limit(text),
        None => None,
    }
}

/// The bytes of an optional path segment.
pub open spec fn segment_bytes(segment: Option<&str>) -> Option<Seq<u8>> {
    match segment {
        Some(text) => Some(text.spec_bytes()),
        None => None,
    }
}

/// Mathematical model of the answer to a request for a key's calls.
pub enum CallsReplyModel {
    Calls(Seq<CallInfoModel>),
    Error(Seq<char>),
}

/// The answer to a request for a key's calls: the calls, or an error
/// payload. Either is a successful answer of the read interface.
#[derive(Debug, PartialEq, Eq)]
pub enum CallsReply {
    Calls(Vec<CallInfo>),
    Error(String),
}

impl View for CallsReply {
    type V = CallsReplyModel;

    open spec fn view(&self) -> CallsReplyModel {
        match self {
            CallsReply::Calls(calls) => CallsReplyModel::Calls(views(calls@)),
            CallsReply::Error(message) => CallsReplyModel::Error(message@),
        }
    }
}

/// Mathematical model of the answer to a request for a key's methods.
pub enum MethodsReplyModel {
    Methods(Seq<MethodInfoModel>),
    Error(Seq<char>),
}

/// The answer to a request for a key's methods: the entries, or an error
/// payload. Either is a successful answer of the read interface.
#[derive(Debug, PartialEq, Eq)]
pub enum MethodsReply {
    Methods(Vec<MethodInfo>),
    Error(String),
}

impl View for MethodsReply {
    type V = MethodsReplyModel;

    open spec fn view(&self) -> MethodsReplyModel {
        match self {
            MethodsReply::Methods(methods) => MethodsReplyModel::Methods(views(methods@)),
            MethodsReply::Error(message) => MethodsReplyModel::Error(message@),
        }
    }
}

/// Answers a request for the calls of a key, newest first, as far as the
/// limit written in the path goes. An unknown key gives the error payload.
pub fn get_calls(registry: &SharedData, key: &str, limit: Option<&str>) -> (r: CallsReply)
    ensures
        r@ == match registry@.recent_calls(key@, limit_spec(segment_bytes(limit))) {
            Some(calls) => CallsReplyModel::Calls(calls),
            None => CallsReplyModel::Error(message_of(ErrorBag::NotFoundError)),
        },
{
    match registry.recent_calls(key, limit_from_segment(limit)) {
        Ok(calls) => CallsReply::Calls(calls),
        Err(e) => CallsReply::Error(e.message()),
    }
}

/// Answers a request for the methods of a key: the entries of its calls,
/// newest call first, as far as the limit written in the path goes. An
/// unknown key gives the error payload.
pub fn get_methods(registry: &SharedData, key: &str, limit: Option<&str>) -> (r: MethodsReply)
    ensures
        r@ == match registry@.recent_methods(key@, limit_spec(segment_bytes(limit))) {
            Some(methods) => MethodsReplyModel::Methods(methods),
            None => MethodsReplyModel::Error(message_of(ErrorBag::NotFoundError)),
        },
{
    match registry.recent_methods(key, limit_from_segment(limit)) {
        Ok(methods) => MethodsReply::Methods(methods),
        Err(e) => MethodsReply::Error(e.message()),
    }
}

} // verus!
