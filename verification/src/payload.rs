//! What is written downstream for a request.

use vstd::prelude::*;
use vstd::string::*;
use vstd::utf8::*;

use crate::headers::{text_members, Headers};
use crate::json::{
    flat, json_of, json_read, json_text, members_of, new_object, object_value, read_value,
    set_member, shallow, text_value, value_text, Json,
};
use crate::passthrough::Passthrough;
use crate::text::{lossy_text, read_lossy};

verus! {

/// The byte that ends a payload.
pub const NEWLINE: u8 = 10;

/// The members of the envelope of a request.
pub open spec fn envelope_members(
    method: Seq<char>,
    path: Seq<char>,
    headers: Map<Seq<char>, Seq<char>>,
    body: Seq<char>,
) -> Map<Seq<char>, Json> {
    map![
        "method"@ => Json::Text(method),
        "path"@ => Json::Text(path),
        "headers"@ => Json::Object(text_members(headers)),
        "body"@ => Json::Text(body),
    ]
}

/// The envelope of a request: a JSON object with the method, the path, the headers and the body.
pub open spec fn envelope_json(
    method: Seq<char>,
    path: Seq<char>,
    headers: Map<Seq<char>, Seq<char>>,
    body: Seq<char>,
) -> Json {
    Json::Object(envelope_members(method, path, headers, body))
}

/// The names of the members are four different ones.
proof fn lemma_member_names()
    ensures
        "method"@ != "path"@,
        "method"@ != "headers"@,
        "method"@ != "body"@,
        "path"@ != "headers"@,
        "path"@ != "body"@,
        "headers"@ != "body"@,
{
    reveal_strlit("method");
    reveal_strlit("path");
    reveal_strlit("headers");
    reveal_strlit("body");
    assert("method"@[0] == 'm');
    assert("path"@[0] == 'p');
    assert("headers"@[0] == 'h');
    assert("body"@[0] == 'b');
}

/// An envelope is shallow.
proof fn lemma_envelope_is_shallow(
    method: Seq<char>,
    path: Seq<char>,
    headers: Map<Seq<char>, Seq<char>>,
    body: Seq<char>,
)
    ensures
        shallow(envelope_json(method, path, headers, body)),
{
    let members = envelope_members(method, path, headers, body);
    assert(flat(Json::Object(text_members(headers))));
    assert forall|name: Seq<char>| #[trigger] members.dom().contains(name) implies flat(
        members[name],
    ) by {}
}

/// The envelope of a request, given the text of its body.
pub fn envelope(method: &str, path: &str, headers: &Headers, body: String) -> (res:
    serde_json::Value)
    ensures
        json_of(res) == envelope_json(method@, path@, headers@, body@),
        json_of(res) matches Json::Object(members) && members.dom() == set![
            "method"@,
            "path"@,
            "headers"@,
            "body"@,
        ] && members["method"@] == Json::Text(method@) && members["path"@] == Json::Text(path@)
            && members["body"@] == Json::Text(body@) && (
        members["headers"@] matches Json::Object(fields) && fields.dom() == headers@.dom()
            && forall|
            name: Seq<char>,
        | #[trigger] headers@.dom().contains(name) ==> fields[name] == Json::Text(headers@[name])),
{
    proof {
        envelope_has_the_request_member_by_member(method@, path@, headers@, body@);
    }
    let ghost body_text = body@;
    let mut object: serde_json::Map<String, serde_json::Value> = new_object();
    set_member(&mut object, "method".to_owned(), text_value(method.to_owned()));
    set_member(&mut object, "path".to_owned(), text_value(path.to_owned()));
    set_member(&mut object, "headers".to_owned(), object_value(headers.to_object()));
    set_member(&mut object, "body".to_owned(), text_value(body));
    assert(members_of(object) =~= envelope_members(method@, path@, headers@, body_text));
    object_value(object)
}

/// The bytes of `text`, and a newline.
pub open spec fn line_of(text: Seq<char>) -> Seq<u8> {
    encode_utf8(text).push(NEWLINE)
}

/// The bytes of a text, and a newline.
pub fn text_line(text: &str) -> (res: Vec<u8>)
    ensures
        res@ == line_of(text@),
        res@ == encode_utf8(text@) + seq![10u8],
{
    proof {
        a_line_is_the_text_and_a_newline(text@);
    }
    let mut out: Vec<u8> = text.as_bytes_vec();
    out.push(NEWLINE);
    out
}

/// What is written for a request.
pub open spec fn payload(
    passthrough: Passthrough,
    method: Seq<char>,
    path: Seq<char>,
    headers: Map<Seq<char>, Seq<char>>,
    body: Seq<u8>,
) -> Seq<u8> {
    match passthrough {
        Passthrough::Body => body.push(NEWLINE),
        Passthrough::Full => line_of(
            json_text(envelope_json(method, path, headers, lossy_text(body))),
        ),
    }
}

/// One line: a newline at the end, and no control characters before it.
pub open spec fn one_line(bytes: Seq<u8>) -> bool {
    &&& bytes.len() > 0
    &&& bytes.last() == NEWLINE
    &&& forall|i: int| 0 <= i < bytes.len() - 1 ==> #[trigger] bytes[i] >= 0x20
}

/// The JSON value that a line holds, if it holds one.
pub open spec fn line_json(bytes: Seq<u8>) -> Option<Json> {
    if bytes.len() > 0 && bytes.last() == NEWLINE {
        json_read(bytes.drop_last())
    } else {
        None
    }
}

/// A character that is no control character is encoded without bytes that are.
proof fn lemma_printable_scalar(c: char)
    requires
        c >= ' ',
    ensures
        forall|i: int|
            0 <= i < encode_scalar(c as u32).len()
                ==> #[trigger] encode_scalar(c as u32)[i] >= 0x20,
{
    let scalar = c as u32;
    assert(has_width_1_encoding(scalar) ==> leading_byte_width_1(scalar) >= 0x20) by (bit_vector)
        requires
            scalar >= 0x20,
    ;
    assert(leading_byte_width_2(scalar) >= 0x20 && leading_byte_width_3(scalar) >= 0x20
        && leading_byte_width_4(scalar) >= 0x20 && last_continuation_byte(scalar) >= 0x20
        && second_last_continuation_byte(scalar) >= 0x20 && third_last_continuation_byte(scalar)
        >= 0x20) by (bit_vector);
}

/// Text without control characters is encoded without bytes that are control characters.
proof fn lemma_printable_bytes(text: Seq<char>)
    requires
        forall|i: int| 0 <= i < text.len() ==> #[trigger] text[i] >= ' ',
    ensures
        forall|i: int| 0 <= i < encode_utf8(text).len() ==> #[trigger] encode_utf8(text)[i] >= 0x20,
    decreases text.len(),
{
    if text.len() > 0 {
        let rest = text.drop_first();
        assert forall|i: int| 0 <= i < rest.len() implies #[trigger] rest[i] >= ' ' by {
            assert(rest[i] == text[i + 1]);
        }
        lemma_printable_bytes(rest);
        let first = encode_scalar(text[0] as u32);
        lemma_printable_scalar(text[0]);
        assert(encode_utf8(text) == first + encode_utf8(rest));
    }
}

/// In full mode `bytes` are one line, and reading it gives the envelope of the request. The body
/// in it is the one of the request where that is UTF-8.
pub open spec fn carries(
    bytes: Seq<u8>,
    passthrough: Passthrough,
    method: Seq<char>,
    path: Seq<char>,
    headers: Map<Seq<char>, Seq<char>>,
    body: Seq<u8>,
) -> bool {
    passthrough == Passthrough::Full ==> {
        &&& one_line(bytes)
        &&& line_json(bytes) == Some(envelope_json(method, path, headers, lossy_text(body)))
        &&& valid_utf8(body) ==> line_json(bytes) == Some(
            envelope_json(method, path, headers, decode_utf8(body)),
        )
    }
}

/// What to write downstream for a request: the body and a newline, or the JSON envelope of the
/// request on one line.
pub fn build_payload(
    passthrough: &Passthrough,
    method: &str,
    path: &str,
    headers: Headers,
    body: Vec<u8>,
) -> (res: Vec<u8>)
    ensures
        res@ == payload(*passthrough, method@, path@, headers@, body@),
        carries(res@, *passthrough, method@, path@, headers@, body@),
        *passthrough == Passthrough::Body ==> res@ == body@ + seq![10u8],
        *passthrough == Passthrough::Full ==> res@.len() > 0 && res@.last() == 10 && forall|i: int|
            0 <= i < res@.len() - 1 ==> #[trigger] res@[i] >= 32,
        *passthrough == Passthrough::Full
            ==> (json_read(res@.drop_last()) matches Some(Json::Object(members))
            && members.dom() == set![
                "method"@,
                "path"@,
                "headers"@,
                "body"@,
            ] && members["method"@] == Json::Text(method@) && members["path"@] == Json::Text(path@)
                && members["body"@] == Json::Text(lossy_text(body@)) && (valid_utf8(body@)
                ==> members["body"@] == Json::Text(decode_utf8(body@))) && (
            members["headers"@] matches Json::Object(fields) && fields.dom() == headers@.dom()
                && forall|
                name: Seq<char>,
            | #[trigger] headers@.dom().contains(name)
                ==> fields[name] == Json::Text(headers@[name]))),
{
    match passthrough {
        Passthrough::Body => {
            proof {
                body_mode_forwards_the_body_alone(method@, path@, headers@, body@);
            }
            let mut out: Vec<u8> = body;
            out.push(NEWLINE);
            out
        },
        Passthrough::Full => {
            let body_text: String = read_lossy(body.as_slice());
            proof {
                lemma_envelope_is_shallow(method@, path@, headers@, body_text@);
                envelope_has_the_request_member_by_member(method@, path@, headers@, body_text@);
            }
            let value: serde_json::Value = envelope(method, path, &headers, body_text);
            let text: String = value_text(&value);
            let out: Vec<u8> = text_line(text.as_str());
            proof {
                lemma_printable_bytes(text@);
                assert(out@.drop_last() =~= encode_utf8(text@));
            }
            out
        },
    }
}

/// Reads a payload in full mode: the JSON value on the line, if it is a line with one.
pub fn read_payload(payload: &[u8]) -> (res: Option<serde_json::Value>)
    ensures
        res is Some <==> line_json(payload@) is Some,
        res matches Some(value) ==> line_json(payload@) == Some(json_of(value)),
        res is Some <==> payload@.len() > 0 && payload@.last() == 10 && json_read(
            payload@.drop_last(),
        ) is Some,
        res matches Some(value) ==> json_read(payload@.drop_last()) == Some(json_of(value)),
{
    let n: usize = payload.len();
    if n == 0 || payload[n - 1] != NEWLINE {
        return None;
    }
    let text: &[u8] = vstd::slice::slice_subrange(payload, 0, n - 1);
    assert(text@ =~= payload@.drop_last());
    read_value(text)
}

/// In body mode the payload is the body and a newline, whatever the rest of the request is.
pub proof fn body_mode_forwards_the_body_alone(
    method: Seq<char>,
    path: Seq<char>,
    headers: Map<Seq<char>, Seq<char>>,
    body: Seq<u8>,
)
    ensures
        payload(Passthrough::Body, method, path, headers, body) == body + seq![10u8],
{
    assert(body.push(NEWLINE) =~= body + seq![10u8]);
}

/// A payload ends with a newline in either mode.
pub proof fn payload_ends_with_newline(
    passthrough: Passthrough,
    method: Seq<char>,
    path: Seq<char>,
    headers: Map<Seq<char>, Seq<char>>,
    body: Seq<u8>,
)
    ensures
        payload(passthrough, method, path, headers, body).len() > 0,
        payload(passthrough, method, path, headers, body).last() == NEWLINE,
{
}

/// An envelope holds the whole request: two requests with the same envelope have the same
/// method, path, headers and body text.
pub proof fn envelope_determines_request(
    method: Seq<char>,
    path: Seq<char>,
    headers: Map<Seq<char>, Seq<char>>,
    body: Seq<char>,
    method2: Seq<char>,
    path2: Seq<char>,
    headers2: Map<Seq<char>, Seq<char>>,
    body2: Seq<char>,
)
    requires
        envelope_json(method, path, headers, body) == envelope_json(method2, path2, headers2, body2),
    ensures
        method == method2,
        path == path2,
        headers == headers2,
        body == body2,
{
    lemma_member_names();
    let a = envelope_members(method, path, headers, body);
    let b = envelope_members(method2, path2, headers2, body2);
    assert(a["method"@] == b["method"@]);
    assert(a["path"@] == b["path"@]);
    assert(a["headers"@] == b["headers"@]);
    assert(a["body"@] == b["body"@]);
    let x = text_members(headers);
    let y = text_members(headers2);
    assert(x == y);
    assert forall|name: Seq<char>| #[trigger] headers.dom().contains(name) implies
        headers2.dom().contains(name) && headers[name] == headers2[name] by {
        assert(x.dom().contains(name));
        assert(x[name] == Json::Text(headers[name]));
        assert(y[name] == Json::Text(headers2[name]));
    }
    assert forall|name: Seq<char>| #[trigger] headers2.dom().contains(name) implies
        headers.dom().contains(name) by {
        assert(y.dom().contains(name));
    }
    assert(headers =~= headers2);
}

/// The envelope of a request has exactly the members `method`, `path`, `headers` and `body`. Each
/// holds what its name says: the method, the path and the body text as strings, and the headers as
/// an object with a string for each header under its name.
pub proof fn envelope_has_the_request_member_by_member(
    method: Seq<char>,
    path: Seq<char>,
    headers: Map<Seq<char>, Seq<char>>,
    body: Seq<char>,
)
    ensures
        envelope_json(method, path, headers, body) matches Json::Object(members) && members.dom()
            == set!["method"@, "path"@, "headers"@, "body"@] && members["method"@] == Json::Text(
            method,
        ) && members["path"@] == Json::Text(path) && members["body"@] == Json::Text(body) && (
        members["headers"@] matches Json::Object(fields) && fields.dom() == headers.dom() && forall|
            name: Seq<char>,
        | #[trigger] headers.dom().contains(name) ==> fields[name] == Json::Text(headers[name])),
{
    lemma_member_names();
    let members = envelope_members(method, path, headers, body);
    assert(members.dom() =~= set!["method"@, "path"@, "headers"@, "body"@]);
    assert(text_members(headers).dom() =~= headers.dom());
}

/// A line is the bytes of the text and then a newline.
pub proof fn a_line_is_the_text_and_a_newline(text: Seq<char>)
    ensures
        line_of(text) == encode_utf8(text) + seq![10u8],
{
    assert(line_of(text) =~= encode_utf8(text) + seq![10u8]);
}

/// In full mode the payload is the JSON text of an object with the request in it member by
/// member, and then a newline.
pub proof fn full_mode_forwards_the_envelope(
    method: Seq<char>,
    path: Seq<char>,
    headers: Map<Seq<char>, Seq<char>>,
    body: Seq<u8>,
)
    ensures
        payload(Passthrough::Full, method, path, headers, body) == encode_utf8(
            json_text(
                Json::Object(
                    map![
                        "body"@ => Json::Text(lossy_text(body)),
                        "headers"@ => Json::Object(
                            Map::new(
                                |name: Seq<char>| headers.dom().contains(name),
                                |name: Seq<char>| Json::Text(headers[name]),
                            ),
                        ),
                        "method"@ => Json::Text(method),
                        "path"@ => Json::Text(path),
                    ],
                ),
            ),
        ) + seq![10u8],
{
    lemma_member_names();
    let fields = Map::new(
        |name: Seq<char>| headers.dom().contains(name),
        |name: Seq<char>| Json::Text(headers[name]),
    );
    assert(text_members(headers) =~= fields);
    let text = lossy_text(body);
    assert(envelope_members(method, path, headers, text) =~= map![
        "body"@ => Json::Text(text),
        "headers"@ => Json::Object(fields),
        "method"@ => Json::Text(method),
        "path"@ => Json::Text(path),
    ]);
    a_line_is_the_text_and_a_newline(json_text(envelope_json(method, path, headers, text)));
}

} // verus!
