use vstd::prelude::*;
use crate::error::{BridgeError, ErrorKind};
use vstd::string::StringExecFns;

verus! {

/// A header entry as the header JSON object holds it: its key, and its value
/// when that value is a JSON string.
pub type JsonEntry = (Seq<char>, Option<Seq<char>>);

/// The header JSON text as the JSON reader sees it: an error message when the
/// text is not JSON, `None` when it is JSON but not an object, and else the
/// object's entries.
pub uninterp spec fn json_object_of(text: Seq<char>) -> Result<Option<Seq<JsonEntry>>, Seq<char>>;

/// Relies on `serde_json::from_str::<serde_json::Value>`: it reads the text as
/// one JSON value, or fails with an error whose message depends on the text alone.
/// An object is handed on as its entries, a string value as its text.
#[verifier::external_body]
fn read_json_object(text: &str) -> (r: Result<Option<Vec<(String, Option<String>)>>, String>)
    ensures
        match r {
            Ok(o) => json_object_of(text@) == Ok::<Option<Seq<JsonEntry>>, Seq<char>>(o.deep_view()),
            Err(m) => json_object_of(text@) == Err::<Option<Seq<JsonEntry>>, Seq<char>>(m@),
        },
{
    match serde_json::from_str::<serde_json::Value>(text) {
        Ok(serde_json::Value::Object(map)) => Ok(Some(map.into_iter().map(|(k, v)| match v {
            serde_json::Value::String(s) => (k, Some(s)),
            _ => (k, None),
        }).collect())),
        Ok(_) => Ok(None),
        Err(e) => Err(e.to_string()),
    }
}

/// The longest header name that the HTTP library accepts.
pub const MAX_HEADER_NAME_LEN: usize = 65535;

/// A character allowed in an HTTP header name (a token character).
pub open spec fn is_token_char(c: char) -> bool {
    ('a' <= c && c <= 'z') || ('A' <= c && c <= 'Z') || ('0' <= c && c <= '9')
        || c == '!' || c == '"' || c == '#' || c == '$' || c == '%' || c == '&'
        || c == '\'' || c == '*' || c == '+' || c == '-' || c == '.' || c == '^'
        || c == '_' || c == '`' || c == '|' || c == '~'
}

/// A valid header name: non-empty, not too long, token characters only.
pub open spec fn valid_header_name(name: Seq<char>) -> bool {
    0 < name.len() <= MAX_HEADER_NAME_LEN && forall|i: int| 0 <= i < name.len() ==> is_token_char(#[trigger] name[i])
}

/// A character allowed in a header value: a tab, or anything from the space on
/// but DEL. (Every byte of a non-ASCII character is at least 128.)
pub open spec fn is_header_value_char(c: char) -> bool {
    c == '\t' || (c as u32 >= 32 && c as u32 != 127)
}

pub open spec fn valid_header_value(value: Seq<char>) -> bool {
    forall|i: int| 0 <= i < value.len() ==> is_header_value_char(#[trigger] value[i])
}

/// Relies on `reqwest::header::HeaderName::from_bytes` (http 0.2): it accepts
/// exactly the names of 1 to 65535 bytes whose every byte is a token character,
/// and its error reads "invalid HTTP header name".
#[verifier::external_body]
fn check_header_name(name: &str) -> (r: Result<(), String>)
    ensures
        r.is_ok() == valid_header_name(name@),
        r matches Err(m) ==> m@ == "invalid HTTP header name"@,
{
    match reqwest::header::HeaderName::from_bytes(name.as_bytes()) {
        Ok(_) => Ok(()),
        Err(e) => Err(e.to_string()),
    }
}

/// Relies on `reqwest::header::HeaderValue::from_str` (http 0.2): it accepts
/// exactly the texts whose bytes are all a tab or at least 32 but not 127, and
/// its error reads "failed to parse header value".
#[verifier::external_body]
fn check_header_value(value: &str) -> (r: Result<(), String>)
    ensures
        r.is_ok() == valid_header_value(value@),
        r matches Err(m) ==> m@ == "failed to parse header value"@,
{
    match reqwest::header::HeaderValue::from_str(value) {
        Ok(_) => Ok(()),
        Err(e) => Err(e.to_string()),
    }
}

/// The text a header value stands for: a JSON string's text, and the empty
/// text for any other JSON value.
pub open spec fn text_or_empty(v: Option<Seq<char>>) -> Seq<char> {
    match v {
        Some(t) => t,
        None => Seq::empty(),
    }
}

/// The headers that the entries of a header object give, in their order, or
/// the kind of the first fault: within an entry the name is checked before the value.
pub open spec fn header_outcome(es: Seq<JsonEntry>) -> Result<Seq<(Seq<char>, Seq<char>)>, ErrorKind>
    decreases es.len(),
{
    if es.len() == 0 {
        Ok(Seq::empty())
    } else {
        match header_outcome(es.drop_last()) {
            Err(k) => Err(k),
            Ok(pre) => {
                let (name, value) = es.last();
                if !valid_header_name(name) {
                    Err(ErrorKind::InvalidHeaderName)
                } else if !valid_header_value(text_or_empty(value)) {
                    Err(ErrorKind::InvalidHeaderValue)
                } else {
                    Ok(pre.push((name, text_or_empty(value))))
                }
            },
        }
    }
}

/// What a header JSON text gives: its headers, or the kind of the fault.
pub open spec fn headers_of_json(text: Seq<char>) -> Result<Seq<(Seq<char>, Seq<char>)>, ErrorKind> {
    match json_object_of(text) {
        Err(_) => Err(ErrorKind::InvalidJson),
        Ok(None) => Err(ErrorKind::NotAnObject),
        Ok(Some(es)) => header_outcome(es),
    }
}

/// The message that goes with a fault of the header JSON text.
pub open spec fn header_fault_message(text: Seq<char>, kind: ErrorKind) -> Seq<char> {
    match kind {
        ErrorKind::InvalidJson => match json_object_of(text) {
            Err(m) => m,
            Ok(_) => Seq::empty(),
        },
        ErrorKind::NotAnObject => "Invalid header JSON"@,
        ErrorKind::InvalidHeaderName => "invalid HTTP header name"@,
        ErrorKind::InvalidHeaderValue => "failed to parse header value"@,
        _ => Seq::empty(),
    }
}

/// A fault stays a fault however many entries follow it.
proof fn lemma_fault_persists(es: Seq<JsonEntry>, i: int)
    requires
        0 <= i <= es.len(),
        header_outcome(es.take(i)) is Err,
    ensures
        header_outcome(es) == header_outcome(es.take(i)),
    decreases es.len() - i,
{
    if i < es.len() {
        assert(es.take(i + 1).drop_last() =~= es.take(i));
        lemma_fault_persists(es, i + 1);
    } else {
        assert(es.take(i) =~= es);
    }
}

/// Parses the header JSON text of a request into (name, value) pairs. Every
/// value that is not a JSON string counts as the empty text. The first name or
/// value that HTTP does not allow ends the parse with an error.
pub fn parse_headers(text: &str) -> (r: Result<Vec<(String, String)>, BridgeError>)
    ensures
        match r {
            Ok(hs) => headers_of_json(text@) == Ok::<Seq<(Seq<char>, Seq<char>)>, ErrorKind>(hs.deep_view()),
            Err(e) => headers_of_json(text@) == Err::<Seq<(Seq<char>, Seq<char>)>, ErrorKind>(e.kind)
                && e.message@ == header_fault_message(text@, e.kind),
        },
{
    let entries = match read_json_object(text) {
        Err(m) => return Err(BridgeError::new(ErrorKind::InvalidJson, m)),
        Ok(None) => return Err(BridgeError::new(ErrorKind::NotAnObject, "Invalid header JSON".to_string())),
        Ok(Some(es)) => es,
    };
    let ghost es = entries.deep_view();
    let mut out: Vec<(String, String)> = Vec::new();
    let mut i: usize = 0;
    assert(es.take(0) =~= Seq::<JsonEntry>::empty());
    assert(out.deep_view() =~= Seq::<(Seq<char>, Seq<char>)>::empty());
    while i < entries.len()
        invariant
            i <= entries.len(),
            es == entries.deep_view(),
            json_object_of(text@) == Ok::<Option<Seq<JsonEntry>>, Seq<char>>(Some(es)),
            header_outcome(es.take(i as int)) == Ok::<Seq<(Seq<char>, Seq<char>)>, ErrorKind>(out.deep_view()),
        decreases entries.len() - i,
    {
        let name = &entries[i].0;
        let value: String = match &entries[i].1 {
            Some(t) => t.clone(),
            None => String::new(),
        };
        assert(es.take(i + 1).drop_last() =~= es.take(i as int));
        assert(es[i as int].0 == name@);
        assert(value@ == text_or_empty(es[i as int].1));
        match check_header_name(name.as_str()) {
            Err(m) => {
                proof { lemma_fault_persists(es, i + 1); }
                return Err(BridgeError::new(ErrorKind::InvalidHeaderName, m));
            },
            Ok(()) => {},
        }
        match check_header_value(value.as_str()) {
            Err(m) => {
                proof { lemma_fault_persists(es, i + 1); }
                return Err(BridgeError::new(ErrorKind::InvalidHeaderValue, m));
            },
            Ok(()) => {},
        }
        out.push((name.clone(), value));
        assert(out.deep_view() =~= header_outcome(es.take(i as int))->Ok_0.push((es[i as int].0, text_or_empty(es[i as int].1))));
        i = i + 1;
    }
    assert(es.take(i as int) =~= es);
    Ok(out)
}

/// The mapping that a sequence of (name, value) pairs gives, a later value of a
/// name replacing an earlier one.
pub open spec fn pairs_map(ps: Seq<(Seq<char>, Seq<char>)>) -> Map<Seq<char>, Seq<char>>
    decreases ps.len(),
{
    if ps.len() == 0 {
        Map::empty()
    } else {
        pairs_map(ps.drop_last()).insert(ps.last().0, ps.last().1)
    }
}

/// No name occurs twice.
pub open spec fn distinct_names(ps: Seq<(Seq<char>, Seq<char>)>) -> bool {
    forall|i: int, j: int| 0 <= i < j < ps.len() ==> (#[trigger] ps[i]).0 != (#[trigger] ps[j]).0
}

/// Every response header value came with a text form.
pub open spec fn all_text(raw: Seq<JsonEntry>) -> bool {
    forall|i: int| 0 <= i < raw.len() ==> (#[trigger] raw[i]).1 is Some
}

/// The response headers with their text forms.
pub open spec fn texts(raw: Seq<JsonEntry>) -> Seq<(Seq<char>, Seq<char>)> {
    raw.map_values(|e: JsonEntry| (e.0, text_or_empty(e.1)))
}

/// Giving a name that already stands in a sequence of distinct names a new
/// value changes the mapping as inserting that value does.
proof fn lemma_pairs_map_update(ps: Seq<(Seq<char>, Seq<char>)>, j: int, v: Seq<char>)
    requires
        distinct_names(ps),
        0 <= j < ps.len(),
    ensures
        pairs_map(ps.update(j, (ps[j].0, v))) == pairs_map(ps).insert(ps[j].0, v),
    decreases ps.len(),
{
    let k = ps[j].0;
    let qs = ps.update(j, (k, v));
    if j == ps.len() - 1 {
        assert(qs.drop_last() =~= ps.drop_last());
        assert(pairs_map(qs) =~= pairs_map(ps).insert(k, v));
    } else {
        assert(qs.drop_last() =~= ps.drop_last().update(j, (k, v)));
        assert(distinct_names(ps.drop_last()));
        lemma_pairs_map_update(ps.drop_last(), j, v);
        assert(ps.last().0 != k);
        assert(pairs_map(qs) =~= pairs_map(ps).insert(k, v));
    }
}

/// Collects the headers of a response into a mapping from name to text, held
/// as pairs with distinct names; of a name that comes more than once the last
/// value stands. A value without a text form ends the collection with an
/// encoding error that names the header.
pub fn collect_headers(raw: &Vec<(String, Option<String>)>) -> (r: Result<Vec<(String, String)>, BridgeError>)
    ensures
        r is Ok <==> all_text(raw.deep_view()),
        match r {
            Ok(hs) => distinct_names(hs.deep_view()) && pairs_map(hs.deep_view()) == pairs_map(texts(raw.deep_view())),
            Err(e) => e.kind == ErrorKind::Encoding && exists|i: int| 0 <= i < raw.len()
                && (#[trigger] raw.deep_view()[i]).1 is None
                && e.message@ == "response header value is not text: "@ + raw.deep_view()[i].0,
        },
{
    let ghost rv = raw.deep_view();
    let mut out: Vec<(String, String)> = Vec::new();
    let mut i: usize = 0;
    assert(out.deep_view() =~= Seq::<(Seq<char>, Seq<char>)>::empty());
    while i < raw.len()
        invariant
            i <= raw.len(),
            rv == raw.deep_view(),
            forall|k: int| 0 <= k < i ==> (#[trigger] rv[k]).1 is Some,
            distinct_names(out.deep_view()),
            pairs_map(out.deep_view()) == pairs_map(texts(rv.take(i as int))),
        decreases raw.len() - i,
    {
        let name = &raw[i].0;
        assert(rv[i as int].0 == name@);
        let value: String = match &raw[i].1 {
            Some(t) => t.clone(),
            None => {
                let mut message = "response header value is not text: ".to_string();
                message.append(name.as_str());
                return Err(BridgeError::new(ErrorKind::Encoding, message));
            },
        };
        assert(texts(rv.take(i + 1)).drop_last() =~= texts(rv.take(i as int)));
        assert(texts(rv.take(i + 1)).last() == (name@, value@));
        let mut j: usize = 0;
        while j < out.len()
            invariant
                j <= out.len(),
                forall|m: int| 0 <= m < j ==> (#[trigger] out.deep_view()[m]).0 != name@,
            ensures
                j <= out.len(),
                forall|m: int| 0 <= m < j ==> (#[trigger] out.deep_view()[m]).0 != name@,
                j < out.len() ==> out.deep_view()[j as int].0 == name@,
            decreases out.len() - j,
        {
            if out[j].0 == *name {
                break;
            }
            j = j + 1;
        }
        let ghost before = out.deep_view();
        if j < out.len() {
            out.set(j, (name.clone(), value));
            proof {
                assert(out.deep_view() =~= before.update(j as int, (before[j as int].0, value@)));
                lemma_pairs_map_update(before, j as int, value@);
                assert forall|a: int, b: int| 0 <= a < b < out.deep_view().len() implies
                    (#[trigger] out.deep_view()[a]).0 != (#[trigger] out.deep_view()[b]).0 by {
                    assert(before[a].0 == out.deep_view()[a].0);
                    assert(before[b].0 == out.deep_view()[b].0);
                }
            }
        } else {
            out.push((name.clone(), value));
            proof {
                assert(out.deep_view().drop_last() =~= before);
                assert forall|a: int, b: int| 0 <= a < b < out.deep_view().len() implies
                    (#[trigger] out.deep_view()[a]).0 != (#[trigger] out.deep_view()[b]).0 by {
                    if b < before.len() {
                        assert(before[a] == out.deep_view()[a]);
                        assert(before[b] == out.deep_view()[b]);
                    } else {
                        assert(before[a] == out.deep_view()[a]);
                    }
                }
            }
        }
        i = i + 1;
    }
    proof {
        assert(rv.take(i as int) =~= rv);
    }
    Ok(out)
}

} // verus!
