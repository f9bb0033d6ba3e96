use vstd::prelude::*;
use crate::envelope::{Envelope, base64_of};
use crate::error::{BridgeError, ErrorKind};
use crate::headers::{
    all_text, collect_headers, distinct_names, header_fault_message, headers_of_json, pairs_map,
    parse_headers, texts,
};

verus! {

/// How long one exchange with the server may take, connect and transfer together.
pub const TIMEOUT_SECS: u64 = 120;

/// The two ways a request goes out.
#[derive(Clone, Copy, Debug, PartialEq, Eq, Structural)]
pub enum Method {
    Get,
    Post,
}

/// The method that a method name selects: exactly "POST" selects POST, and
/// every other name (lower case "post", "PUT", the empty name) selects GET.
pub open spec fn method_of(name: Seq<char>) -> Method {
    if name == "POST"@ {
        Method::Post
    } else {
        Method::Get
    }
}

impl Method {
    pub fn from_name(name: &str) -> (r: Method)
        ensures
            r == method_of(name@),
    {
        let given = name.to_string();
        let post = "POST".to_string();
        if given == post {
            Method::Post
        } else {
            Method::Get
        }
    }
}

/// A checked request, ready to be sent.
#[derive(Debug)]
pub struct RequestPlan {
    pub method: Method,
    pub url: String,
    /// Header names and values, each valid for HTTP, in the order given.
    pub headers: Vec<(String, String)>,
    /// The body to attach; only a POST carries one.
    pub body: Option<String>,
    pub timeout_secs: u64,
}

/// Turns the four strings of a bridge call into a request to send, or into the
/// input error that ends the call before anything is sent.
pub fn plan_request(url: String, body: String, header_json: &str, method: &str) -> (r: Result<RequestPlan, BridgeError>)
    ensures
        r is Ok <==> headers_of_json(header_json@) is Ok,
        match r {
            Ok(p) => p.url@ == url@
                && p.method == method_of(method@)
                && Ok::<Seq<(Seq<char>, Seq<char>)>, ErrorKind>(p.headers.deep_view()) == headers_of_json(header_json@)
                && (if method_of(method@) == Method::Post {
                    p.body matches Some(b) && b@ == body@
                } else {
                    p.body is None
                })
                && p.timeout_secs == TIMEOUT_SECS,
            Err(e) => Err::<Seq<(Seq<char>, Seq<char>)>, ErrorKind>(e.kind) == headers_of_json(header_json@)
                && e.message@ == header_fault_message(header_json@, e.kind),
        },
{
    let headers = match parse_headers(header_json) {
        Ok(hs) => hs,
        Err(e) => return Err(e),
    };
    let method = Method::from_name(method);
    let body = match method {
        Method::Post => Some(body),
        Method::Get => None,
    };
    Ok(RequestPlan { method, url, headers, body, timeout_secs: TIMEOUT_SECS })
}

/// The envelope of a response that arrived in full: its bytes as Base64 and
/// its headers as a mapping, or an encoding error when a header value has no
/// text form.
pub fn respond(bytes: &Vec<u8>, raw_headers: &Vec<(String, Option<String>)>) -> (r: Envelope)
    ensures
        r.is_success() <==> all_text(raw_headers.deep_view()),
        match r {
            Envelope::Success { body, headers } => body@ == base64_of(bytes@)
                && distinct_names(headers.deep_view())
                && pairs_map(headers.deep_view()) == pairs_map(texts(raw_headers.deep_view())),
            Envelope::Failure { body } => exists|i: int| 0 <= i < raw_headers.len()
                && (#[trigger] raw_headers.deep_view()[i]).1 is None
                && body@ == "response header value is not text: "@ + raw_headers.deep_view()[i].0,
        },
        r.is_success() ==> r.decoded_body_spec() == Some(bytes@),
{
    match collect_headers(raw_headers) {
        Ok(hs) => Envelope::success(bytes, hs),
        Err(e) => Envelope::failure(e),
    }
}

/// The envelope of a call that failed in the exchange with the server: its
/// body is the transport's own description of the failure.
pub fn transport_failure(message: String) -> (r: Envelope)
    ensures
        r matches Envelope::Failure { body } && body@ == message@,
{
    Envelope::failure(BridgeError::transport(message))
}

} // verus!
