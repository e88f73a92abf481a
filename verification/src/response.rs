//! Responses, as the plain values that go out on the wire.

use crate::document::{json_text, to_text};
use serde_json::Value;
use vstd::prelude::*;

verus! {

/// The request was served.
pub const OK: u16 = 200;

/// The path does not decode, or the body or its content type cannot be read.
pub const BAD_REQUEST: u16 = 400;

/// No route matches, or the route has nothing at the path.
pub const NOT_FOUND: u16 = 404;

/// Every matching route declines the method.
pub const METHOD_NOT_ALLOWED: u16 = 405;

/// A test of a patch did not hold.
pub const CONFLICT: u16 = 409;

/// The body of a patch request is not said to be JSON.
pub const UNSUPPORTED_MEDIA_TYPE: u16 = 415;

/// Something outside the request went wrong.
pub const INTERNAL_SERVER_ERROR: u16 = 500;

/// A status code, header lines in the order they go out, and a body.
#[derive(Debug)]
pub struct Response {
    pub status: u16,
    pub headers: Vec<(String, String)>,
    pub body: Vec<u8>,
}

/// What a response holds.
pub struct ResponseView {
    pub status: u16,
    pub headers: Seq<(Seq<char>, Seq<char>)>,
    pub body: Seq<u8>,
}

impl View for Response {
    type V = ResponseView;

    open spec fn view(&self) -> ResponseView {
        ResponseView {
            status: self.status,
            headers: self.headers.deep_view(),
            body: self.body@,
        }
    }
}

/// The response that holds a status code and nothing else.
pub open spec fn status_only(status: u16) -> ResponseView {
    ResponseView { status, headers: Seq::empty(), body: Seq::empty() }
}

/// The successful response that carries a JSON text.
pub open spec fn json_response(text: Seq<char>) -> ResponseView {
    ResponseView {
        status: OK,
        headers: seq![("content-type"@, "application/json"@)],
        body: vstd::utf8::encode_utf8(text),
    }
}

/// An empty response with the given status.
pub fn from_status(status: u16) -> (r: Response)
    ensures
        r@ == status_only(status),
{
    let r = Response { status, headers: Vec::new(), body: Vec::new() };
    assert(r.headers.deep_view() =~= Seq::empty());
    r
}

/// A successful response whose body is the compact text of `value`.
pub fn json(value: &Value) -> (r: Response)
    ensures
        r@ == json_response(json_text(*value)),
{
    let text = to_text(value);
    let mut headers: Vec<(String, String)> = Vec::new();
    headers.push((String::from_str("content-type"), String::from_str("application/json")));
    let r = Response { status: OK, headers, body: text.as_str().as_bytes_vec() };
    assert(r.headers.deep_view() =~= seq![("content-type"@, "application/json"@)]);
    r
}

/// The character of a decimal digit.
pub open spec fn digit_char(digit: nat) -> char
    recommends
        digit < 10,
{
    if digit == 0 {
        '0'
    } else if digit == 1 {
        '1'
    } else if digit == 2 {
        '2'
    } else if digit == 3 {
        '3'
    } else if digit == 4 {
        '4'
    } else if digit == 5 {
        '5'
    } else if digit == 6 {
        '6'
    } else if digit == 7 {
        '7'
    } else if digit == 8 {
        '8'
    } else {
        '9'
    }
}

/// The decimal digits of `n`, without leading zeros.
pub open spec fn decimal_text(n: nat) -> Seq<char>
    decreases n,
{
    if n < 10 {
        seq![digit_char(n)]
    } else {
        decimal_text(n / 10).push(digit_char(n % 10))
    }
}

fn digit_text(digit: usize) -> (r: &'static str)
    requires
        digit < 10,
    ensures
        r@ == seq![digit_char(digit as nat)],
{
    proof {
        reveal_strlit("0");
        reveal_strlit("1");
        reveal_strlit("2");
        reveal_strlit("3");
        reveal_strlit("4");
        reveal_strlit("5");
        reveal_strlit("6");
        reveal_strlit("7");
        reveal_strlit("8");
        reveal_strlit("9");
    }
    let r = if digit == 0 {
        "0"
    } else if digit == 1 {
        "1"
    } else if digit == 2 {
        "2"
    } else if digit == 3 {
        "3"
    } else if digit == 4 {
        "4"
    } else if digit == 5 {
        "5"
    } else if digit == 6 {
        "6"
    } else if digit == 7 {
        "7"
    } else if digit == 8 {
        "8"
    } else {
        "9"
    };
    assert(r@ =~= seq![digit_char(digit as nat)]);
    r
}

/// Writes `n` in decimal.
pub fn decimal(n: usize) -> (r: String)
    ensures
        r@ == decimal_text(n as nat),
{
    let mut text = String::from_str(digit_text(n % 10));
    let mut rest = n / 10;
    proof {
        if n < 10 {
            assert(text@ == decimal_text(n as nat));
        }
    }
    while rest > 0
        invariant
            rest == 0 ==> text@ == decimal_text(n as nat),
            rest > 0 ==> decimal_text(n as nat) == decimal_text(rest as nat) + text@,
        decreases rest,
    {
        let ghost before = text@;
        let ghost whole = rest;
        let digit = String::from_str(digit_text(rest % 10));
        text = digit.concat(text.as_str());
        rest = rest / 10;
        proof {
            if rest == 0 {
                assert(decimal_text(whole as nat) == seq![digit_char(whole as nat)]);
            } else {
                assert(decimal_text(whole as nat) == decimal_text(rest as nat).push(
                    digit_char((whole % 10) as nat),
                ));
                assert(decimal_text(rest as nat).push(digit_char((whole % 10) as nat)) + before
                    == decimal_text(rest as nat) + (seq![digit_char((whole % 10) as nat)]
                    + before));
            }
        }
    }
    text
}

} // verus!
