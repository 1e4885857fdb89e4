//! The request forwarder, as far as it decides anything: which methods it
//! forwards.

use vstd::prelude::*;
use vstd::string::*;
use crate::text::same_text;

verus! {

/// A method that the forwarder forwards.
#[derive(Clone, Copy, Debug, PartialEq, Eq)]
pub enum HttpMethod {
    Get,
    Post,
    Put,
    Delete,
}

/// The text `text` in upper case, as `str::to_uppercase` of the standard
/// library gives it.
pub uninterp spec fn uppercase(text: Seq<char>) -> Seq<char>;

/// Calls `str::to_uppercase`. The contract claims only that the outcome is a
/// function of the text; it does not say which.
#[verifier::external_body]
fn to_upper(text: &str) -> (upper: String)
    ensures
        upper@ == uppercase(text@),
{
    text.to_uppercase()
}

/// The method that the upper-case name `upper` names, if the forwarder
/// forwards it.
pub open spec fn method_named(upper: Seq<char>) -> Option<HttpMethod> {
    if upper == "GET"@ {
        Some(HttpMethod::Get)
    } else if upper == "POST"@ {
        Some(HttpMethod::Post)
    } else if upper == "PUT"@ {
        Some(HttpMethod::Put)
    } else if upper == "DELETE"@ {
        Some(HttpMethod::Delete)
    } else {
        None
    }
}

/// The error for a method that the forwarder does not forward; it names the
/// method as the caller wrote it.
pub open spec fn unsupported_method_error(method: Seq<char>) -> Seq<char> {
    "Unsupported method: "@ + method
}

/// The method that `upper`, the upper-case form of `method`, names, or the
/// error that names `method`.
pub fn method_from_upper(upper: &str, method: &str) -> (chosen: Result<HttpMethod, String>)
    ensures
        match chosen {
            Ok(m) => method_named(upper@) == Some(m),
            Err(message) => method_named(upper@) is None && message@ == unsupported_method_error(
                method@,
            ),
        },
{
    if same_text(upper, "GET") {
        Ok(HttpMethod::Get)
    } else if same_text(upper, "POST") {
        Ok(HttpMethod::Post)
    } else if same_text(upper, "PUT") {
        Ok(HttpMethod::Put)
    } else if same_text(upper, "DELETE") {
        Ok(HttpMethod::Delete)
    } else {
        let mut message = String::from_str("Unsupported method: ");
        message.append(method);
        Err(message)
    }
}

/// The method to forward a request with, whatever the case of its name, or
/// the error that names the method where the forwarder does not forward it.
pub fn select_method(method: &str) -> (chosen: Result<HttpMethod, String>)
    ensures
        match chosen {
            Ok(m) => method_named(uppercase(method@)) == Some(m),
            Err(message) => method_named(uppercase(method@)) is None && message@
                == unsupported_method_error(method@),
        },
{
    let upper = to_upper(method);
    method_from_upper(upper.as_str(), method)
}

} // verus!
