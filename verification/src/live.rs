//! Reading a camera's live-feed address out of the control server's
//! reply.
//!
//! The reply is a JSON document; the logic needs two things of it: the
//! numeric `code` field and the string under `data.url`.  Extracting
//! them goes through serde_json; deciding what they mean is verified
//! here.

use vstd::prelude::*;
use vstd::string::StringExecFns;

use crate::error::Error;

verus! {

/// The numeric `code` field a reply's text carries, if any: a
/// function of the text alone.
pub uninterp spec fn json_code_of(s: Seq<char>) -> Option<i64>;

/// The string under `data.url` a reply's text carries, if any: a
/// function of the text alone.
pub uninterp spec fn json_live_url_of(s: Seq<char>) -> Option<Seq<char>>;

/// Relies on serde_json::from_str and on Value::get, Value::as_i64
/// and Value::as_str: parsing is deterministic, so both fields depend
/// on the text alone.  A text that is not JSON carries neither field.
#[verifier::external_body]
fn parse_live_reply(text: &str) -> (r: (Option<i64>, Option<String>))
    ensures
        r.0 == json_code_of(text@),
        match (r.1, json_live_url_of(text@)) {
            (Some(u), Some(v)) => u@ == v,
            (None, None) => true,
            _ => false,
        },
{
    let value: serde_json::Value = match serde_json::from_str(text) {
        Ok(v) => v,
        Err(_) => return (None, None),
    };
    let code = value.get("code").and_then(|c| c.as_i64());
    let url = value
        .get("data")
        .and_then(|d| d.get("url"))
        .and_then(|u| u.as_str())
        .map(|s| s.to_owned());
    (code, url)
}

/// Decides what a control-server reply means: the live-feed address
/// under `data.url` exactly when the reply parses, its code is 200 and
/// the address is there; everything else is a network error.
pub fn live_url_from_reply(text: &str) -> (r: Result<String, Error>)
    ensures
        match r {
            Ok(u) => {
                &&& json_code_of(text@) == Some(200i64)
                &&& json_live_url_of(text@) == Some(u@)
            },
            Err(e) => {
                &&& e matches Error::Network(_)
                &&& (json_code_of(text@) != Some(200i64) || json_live_url_of(text@)
                    == Option::<Seq<char>>::None)
            },
        },
{
    let (code, url) = parse_live_reply(text);
    let code_ok = match code {
        Some(c) => c == 200,
        None => false,
    };
    if code_ok {
        if let Some(u) = url {
            return Ok(u);
        }
    }
    Err(Error::Network(String::from_str("unexpected live-url reply")))
}

} // verus!
