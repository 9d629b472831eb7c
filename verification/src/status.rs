//! Choosing the response status from the `status` query parameter.

use vstd::prelude::*;
use crate::fields::FieldMap;

verus! {

/// The status used whenever the caller asks for none, or for one that cannot
/// be used.
pub const DEFAULT_STATUS: u16 = 200;

/// Whether `c` is one of the ten decimal digits.
pub open spec fn is_digit(c: char) -> bool {
    '0' <= c && c <= '9'
}

/// The number that a sequence of decimal digits writes, most significant
/// digit first.
pub open spec fn digits_value(s: Seq<char>) -> nat
    decreases s.len(),
{
    if s.len() == 0 {
        0
    } else {
        (digits_value(s.drop_last()) * 10 + (s.last() as u32 - '0' as u32)) as nat
    }
}

/// The digits of a decimal numeral: the text itself, without a leading `+`
/// if it has one.
pub open spec fn numeral_digits(s: Seq<char>) -> Seq<char> {
    if s.len() > 0 && s[0] == '+' {
        s.subrange(1, s.len() as int)
    } else {
        s
    }
}

/// What reading `s` as an unsigned 16-bit decimal numeral gives: the text
/// must be an optional `+` followed by one or more digits and nothing else,
/// and the number must fit.
pub open spec fn parsed_u16(s: Seq<char>) -> Option<u16> {
    let d = numeral_digits(s);
    if d.len() > 0 && (forall|i: int| 0 <= i < d.len() ==> is_digit(#[trigger] d[i]))
        && digits_value(d) <= u16::MAX {
        Some(digits_value(d) as u16)
    } else {
        None
    }
}

/// The number asked for by the raw `status` parameter, or the default where
/// the parameter is absent or is not a 16-bit numeral.
pub open spec fn requested_status(param: Option<Seq<char>>) -> u16 {
    match param {
        Some(text) => match parsed_u16(text) {
            Some(n) => n,
            None => DEFAULT_STATUS,
        },
        None => DEFAULT_STATUS,
    }
}

/// The status that is sent for a requested number: the number itself where
/// it lies in 100..=599, the default otherwise.
pub open spec fn effective_status(code: u16) -> u16 {
    if 100 <= code && code <= 599 {
        code
    } else {
        DEFAULT_STATUS
    }
}

/// The raw value stored under `status`, if any.
pub open spec fn status_param(queries: Map<Seq<char>, Seq<char>>) -> Option<Seq<char>> {
    if queries.contains_key("status"@) {
        Some(queries["status"@])
    } else {
        None
    }
}

/// The response status that a set of query parameters selects.
pub open spec fn status_of(queries: Map<Seq<char>, Seq<char>>) -> u16 {
    effective_status(requested_status(status_param(queries)))
}

/// Calls `str::parse::<u16>` of the standard library. Trusted: the call
/// succeeds exactly on an optional `+` followed by one or more decimal
/// digits whose value fits in 16 bits, and then returns that value.
#[verifier::external_body]
fn parse_u16(text: &str) -> (r: Option<u16>)
    ensures
        r == parsed_u16(text@),
{
    text.parse::<u16>().ok()
}

/// Calls `StatusCode::from_u16` of the `http` crate, as re-exported by axum,
/// and reads the accepted code back with `StatusCode::as_u16`. Trusted: a
/// number is accepted exactly when it is at least 100 and below 1000, and an
/// accepted status carries the number it was made from.
#[verifier::external_body]
fn accepted_status(code: u16) -> (r: Option<u16>)
    ensures
        r == (if 100 <= code && code < 1000 {
            Some(code)
        } else {
            None
        }),
{
    match axum::http::StatusCode::from_u16(code) {
        Ok(status) => Some(status.as_u16()),
        Err(_) => None,
    }
}

/// Reads the raw `status` parameter as a number, falling back to the default.
pub fn parse_status_param(param: Option<&String>) -> (r: u16)
    ensures
        r == requested_status(
            match param {
                Some(text) => Some(text@),
                None => None,
            },
        ),
{
    match param {
        Some(text) => match parse_u16(text.as_str()) {
            Some(n) => n,
            None => DEFAULT_STATUS,
        },
        None => DEFAULT_STATUS,
    }
}

/// Turns a requested number into the status to send: numbers outside
/// 100..=599, and numbers that the HTTP library does not accept as a status,
/// give the default.
pub fn select_status(code: u16) -> (r: u16)
    ensures
        r == effective_status(code),
        100 <= r <= 599,
{
    if code > 599 {
        DEFAULT_STATUS
    } else {
        match accepted_status(code) {
            Some(accepted) => accepted,
            None => DEFAULT_STATUS,
        }
    }
}

/// The response status for a request with the given query parameters.
pub fn response_status(queries: &FieldMap) -> (r: u16)
    requires
        queries.wf(),
    ensures
        r == status_of(queries@),
        100 <= r <= 599,
{
    let key = "status".to_owned();
    let code = parse_status_param(queries.get(&key));
    select_status(code)
}

/// Whatever the query parameters hold, the selected status lies in
/// 100..=599, and it differs from the default only where the `status`
/// parameter is a numeral that writes exactly that status.
pub proof fn lemma_status_sound(queries: Map<Seq<char>, Seq<char>>)
    ensures
        100 <= status_of(queries) <= 599,
        status_of(queries) != DEFAULT_STATUS ==> queries.contains_key("status"@) && parsed_u16(
            queries["status"@],
        ) == Some(status_of(queries)),
{
}

} // verus!
