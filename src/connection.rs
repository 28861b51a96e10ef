use vstd::prelude::*;
use vstd::string::StringExecFns;
use web_sys::wasm_bindgen::JsValue;

verus! {

/// Why sending a message up to the backend failed.
pub enum SendUpMsgError {
    /// The request could not be made; holds the browser's error.
    RequestFailed(JsValue),
    /// The backend answered with a status outside 200..=299.
    ResponseIsNot2xx,
}

/// Relies on `JsValue`'s `Debug` impl: a readable rendering of the value.
#[verifier::external_body]
fn debug_text(v: &JsValue) -> (r: String) {
    format!("{:?}", v)
}

/// The description of a failed request whose error renders as `debug`.
pub fn request_failed_text(debug: &str) -> (r: String)
    ensures
        r@ == "request failed: "@ + debug@,
{
    String::from_str("request failed: ").concat(debug)
}

impl SendUpMsgError {
    /// A one-line description of the error.
    pub fn message(&self) -> (r: String)
        ensures
            self is ResponseIsNot2xx ==> r@ == "response status is not 2xx"@,
            self is RequestFailed ==> r@.len() >= 16 && r@.subrange(0, 16) == "request failed: "@,
    {
        match self {
            SendUpMsgError::RequestFailed(e) => {
                let text = debug_text(e);
                let r = request_failed_text(text.as_str());
                proof {
                    reveal_strlit("request failed: ");
                    assert(r@.subrange(0, 16) =~= "request failed: "@);
                }
                r
            },
            SendUpMsgError::ResponseIsNot2xx => String::from_str("response status is not 2xx"),
        }
    }
}

/// The outcome of sending a message, from what the request gave: a failed
/// request, or a response whose status is 2xx or not.
pub fn up_msg_outcome<C>(cor_id: C, response: Result<bool, JsValue>) -> (r: Result<C, SendUpMsgError>)
    ensures
        response matches Ok(ok) ==> (ok ==> r == Ok::<C, SendUpMsgError>(cor_id)) && (!ok ==> (r matches Err(e) && e is ResponseIsNot2xx)),
        response matches Err(e) ==> r == Err::<C, SendUpMsgError>(SendUpMsgError::RequestFailed(e)),
{
    match response {
        Ok(true) => Ok(cor_id),
        Ok(false) => Err(SendUpMsgError::ResponseIsNot2xx),
        Err(e) => Err(SendUpMsgError::RequestFailed(e)),
    }
}

/// The headers sent with a message: its correlation id, the session id and,
/// where there is one, the auth token.
pub fn up_msg_headers(cor_id: String, session_id: String, auth_token: Option<String>) -> (r: Vec<(String, String)>)
    ensures
        r@.len() == if auth_token is Some { 3int } else { 2int },
        r@[0].0@ == "X-Correlation-ID"@ && r@[0].1 == cor_id,
        r@[1].0@ == "X-Session-ID"@ && r@[1].1 == session_id,
        auth_token matches Some(t) ==> r@[2].0@ == "X-Auth-Token"@ && r@[2].1 == t,
{
    let mut r: Vec<(String, String)> = Vec::new();
    r.push((String::from_str("X-Correlation-ID"), cor_id));
    r.push((String::from_str("X-Session-ID"), session_id));
    match auth_token {
        Some(t) => {
            r.push((String::from_str("X-Auth-Token"), t));
        },
        None => {},
    }
    r
}

} // verus!
