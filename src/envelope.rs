use vstd::prelude::*;
use vstd::string::StringExecFns;
use base64::Engine;
use crate::error::BridgeError;

verus! {

/// The standard, padded Base64 text of some bytes.
pub uninterp spec fn base64_of(bytes: Seq<u8>) -> Seq<char>;

/// The bytes that a standard, padded Base64 text decodes to, if it is one.
pub uninterp spec fn base64_decoded(text: Seq<char>) -> Option<Seq<u8>>;

/// The JSON string literal (quotes and escapes included) that stands for a text.
pub uninterp spec fn json_quoted(text: Seq<char>) -> Seq<char>;

/// Relies on `base64::engine::general_purpose::STANDARD.encode`: the padded
/// Base64 text of the bytes, which that engine's `decode` turns back into them.
#[verifier::external_body]
fn encode_base64(bytes: &Vec<u8>) -> (r: String)
    ensures
        r@ == base64_of(bytes@),
        base64_decoded(r@) == Some(bytes@),
{
    base64::engine::general_purpose::STANDARD.encode(bytes)
}

/// Relies on `base64::engine::general_purpose::STANDARD.decode`: the bytes of a
/// padded Base64 text, or an error for any other text.
#[verifier::external_body]
fn decode_base64(text: &str) -> (r: Option<Vec<u8>>)
    ensures
        match r {
            Some(b) => base64_decoded(text@) == Some(b@),
            None => base64_decoded(text@) is None,
        },
{
    base64::engine::general_purpose::STANDARD.decode(text).ok()
}

/// Relies on the `Display` of `serde_json::Value::String`: the compact JSON
/// string literal of the text.
#[verifier::external_body]
fn quote_json(text: &str) -> (r: String)
    ensures
        r@ == json_quoted(text@),
{
    serde_json::Value::String(text.to_string()).to_string()
}

/// The result of one bridged request. On success the body is the Base64 text
/// of the response bytes and the headers map each response header name to its
/// text; on failure the body is a human-readable message.
#[derive(Debug)]
pub enum Envelope {
    Success { body: String, headers: Vec<(String, String)> },
    Failure { body: String },
}

/// One header as a JSON object member.
pub open spec fn member_text(h: (Seq<char>, Seq<char>)) -> Seq<char> {
    json_quoted(h.0) + ":"@ + json_quoted(h.1)
}

/// The members of a JSON object, comma separated.
pub open spec fn members_text(hs: Seq<(Seq<char>, Seq<char>)>) -> Seq<char>
    decreases hs.len(),
{
    if hs.len() == 0 {
        Seq::empty()
    } else if hs.len() == 1 {
        member_text(hs[0])
    } else {
        members_text(hs.drop_last()) + ","@ + member_text(hs.last())
    }
}

/// The JSON text of an envelope.
pub open spec fn envelope_text(e: &Envelope) -> Seq<char> {
    match e {
        Envelope::Success { body, headers } => "{\"success\":true,\"body\":"@ + json_quoted(body@)
            + ",\"headers\":{"@ + members_text(headers.deep_view()) + "}}"@,
        Envelope::Failure { body } => "{\"success\":false,\"body\":"@ + json_quoted(body@) + "}"@,
    }
}

impl Envelope {
    /// The envelope of a response whose headers were collected: the body
    /// travels as its Base64 text.
    pub fn success(bytes: &Vec<u8>, headers: Vec<(String, String)>) -> (r: Envelope)
        ensures
            r matches Envelope::Success { body, headers: hs } && body@ == base64_of(bytes@)
                && hs.deep_view() == headers.deep_view(),
            r.decoded_body_spec() == Some(bytes@),
    {
        Envelope::Success { body: encode_base64(bytes), headers }
    }

    /// The envelope of a failed call: its body is the error's message.
    pub fn failure(error: BridgeError) -> (r: Envelope)
        ensures
            r matches Envelope::Failure { body } && body@ == error.message@,
    {
        Envelope::Failure { body: error.message }
    }

    pub open spec fn is_success(&self) -> bool {
        self is Success
    }

    pub open spec fn body_spec(&self) -> Seq<char> {
        match self {
            Envelope::Success { body, .. } => body@,
            Envelope::Failure { body } => body@,
        }
    }

    /// The response bytes that a success envelope carries, if its body is Base64.
    pub open spec fn decoded_body_spec(&self) -> Option<Seq<u8>> {
        match self {
            Envelope::Success { body, .. } => base64_decoded(body@),
            Envelope::Failure { .. } => None,
        }
    }

    pub fn is_ok(&self) -> (r: bool)
        ensures
            r == self.is_success(),
    {
        match self {
            Envelope::Success { .. } => true,
            Envelope::Failure { .. } => false,
        }
    }

    pub fn body(&self) -> (r: &String)
        ensures
            r@ == self.body_spec(),
    {
        match self {
            Envelope::Success { body, .. } => body,
            Envelope::Failure { body } => body,
        }
    }

    /// The response headers, present on success only.
    pub fn headers(&self) -> (r: Option<&Vec<(String, String)>>)
        ensures
            match self {
                Envelope::Success { headers, .. } => r == Some(headers),
                Envelope::Failure { .. } => r is None,
            },
    {
        match self {
            Envelope::Success { headers, .. } => Some(headers),
            Envelope::Failure { .. } => None,
        }
    }

    /// The response bytes of a success envelope, decoded from its Base64 body.
    pub fn decoded_body(&self) -> (r: Option<Vec<u8>>)
        ensures
            match r {
                Some(b) => self.decoded_body_spec() == Some(b@),
                None => self.decoded_body_spec() is None,
            },
    {
        match self {
            Envelope::Success { body, .. } => decode_base64(body.as_str()),
            Envelope::Failure { .. } => None,
        }
    }

    /// The JSON text of the envelope: `success`, `body`, and on success `headers`.
    pub fn render(&self) -> (r: String)
        ensures
            r@ == envelope_text(self),
    {
        match self {
            Envelope::Success { body, headers } => {
                let mut out = "{\"success\":true,\"body\":".to_string();
                out.append(quote_json(body.as_str()).as_str());
                out.append(",\"headers\":{");
                let ghost prefix = out@;
                let ghost hs = headers.deep_view();
                let mut i: usize = 0;
                assert(hs.take(0) =~= Seq::<(Seq<char>, Seq<char>)>::empty());
                assert(out@ =~= prefix + members_text(hs.take(0)));
                while i < headers.len()
                    invariant
                        i <= headers.len(),
                        hs == headers.deep_view(),
                        out@ == prefix + members_text(hs.take(i as int)),
                    decreases headers.len() - i,
                {
                    if i > 0 {
                        out.append(",");
                    }
                    out.append(quote_json(headers[i].0.as_str()).as_str());
                    out.append(":");
                    out.append(quote_json(headers[i].1.as_str()).as_str());
                    proof {
                        assert(hs.take(i + 1).drop_last() =~= hs.take(i as int));
                        assert(hs.take(i + 1).last() == (headers[i as int].0@, headers[i as int].1@));
                        if i == 0 {
                            assert(out@ =~= prefix + members_text(hs.take(i + 1)));
                        } else {
                            assert(out@ =~= prefix + members_text(hs.take(i + 1)));
                        }
                    }
                    i = i + 1;
                }
                out.append("}}");
                assert(hs.take(i as int) =~= hs);
                assert(out@ =~= envelope_text(self));
                out
            },
            Envelope::Failure { body } => {
                let mut out = "{\"success\":false,\"body\":".to_string();
                out.append(quote_json(body.as_str()).as_str());
                out.append("}");
                assert(out@ =~= envelope_text(self));
                out
            },
        }
    }
}

} // verus!
