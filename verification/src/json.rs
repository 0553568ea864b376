//! JSON checking and pretty-printing, done by `serde_json`.
use vstd::prelude::*;
use crate::text::trim;

verus! {

/// What `serde_json::from_str::<serde_json::Value>` reports for a text:
/// `None` when the text is one JSON value (white space around it allowed),
/// otherwise the `Display` text of the error it returns.
pub uninterp spec fn json_parse_error(text: Seq<char>) -> Option<Seq<char>>;

/// The text that `serde_json::to_string_pretty` writes for the value that
/// `serde_json::from_str::<serde_json::Value>` reads from a text.
pub uninterp spec fn json_pretty(text: Seq<char>) -> Seq<char>;

/// Whether the text is valid JSON.
pub open spec fn json_valid(text: Seq<char>) -> bool {
    json_parse_error(text) is None
}

/// Calls `serde_json::from_str::<serde_json::Value>` on `text`; the contract
/// claims that the outcome is the one `json_parse_error` names, the error
/// being carried as its `Display` text.
#[verifier::external_body]
pub(crate) fn json_check(text: &str) -> (r: Result<(), String>)
    ensures
        match r {
            Ok(_) => json_parse_error(text@) is None,
            Err(m) => json_parse_error(text@) == Some(m@),
        },
{
    match serde_json::from_str::<serde_json::Value>(text) {
        Ok(_) => Ok(()),
        Err(e) => Err(e.to_string()),
    }
}

/// Calls `serde_json::to_string_pretty` on the value read from `text`; the
/// contract claims that the result is the text `json_pretty` names. Writing a
/// `serde_json::Value` cannot fail (its object keys are strings), and reading
/// cannot fail either under the precondition. It also claims what the
/// `serde_json` source shows of that text: it is JSON (`to_string_pretty`
/// serializes "as a String of JSON", no deeper than the value it read), it
/// holds no carriage return (strings escape it as `\r`; the pretty
/// formatter breaks lines with `\n` alone), it does not end with a newline
/// (an array or object ends with its bracket, a scalar with its last
/// character), and it is not blank (every JSON value writes at least one
/// character that is not white space).
#[verifier::external_body]
pub(crate) fn json_to_pretty(text: &str) -> (r: String)
    requires
        json_valid(text@),
    ensures
        r@ == json_pretty(text@),
        json_valid(r@),
        !r@.contains('\r'),
        r@.len() > 0 && r@.last() != '\n',
        trim(r@).len() > 0,
{
    let value: serde_json::Value = serde_json::from_str(text).unwrap();
    serde_json::to_string_pretty(&value).unwrap()
}

/// Pretty-prints `body` when it is valid JSON; otherwise gives it back as it is.
pub fn try_format_json(body: &str) -> (r: String)
    ensures
        r@ == (if json_valid(body@) {
            json_pretty(body@)
        } else {
            body@
        }),
{
    match json_check(body) {
        Ok(_) => json_to_pretty(body),
        Err(_) => body.to_owned(),
    }
}

} // verus!
