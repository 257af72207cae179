//! The wire-envelope codec.
//!
//! A frame is a JSON object tagged by its `type` field, with the
//! per-subscription frames carrying an `id` and most frames a
//! `payload`.  Encoding builds the tagged object; decoding dispatches
//! on the tag and tolerates unknown tags and malformed shapes by
//! reporting nothing rather than failing.

use vstd::prelude::*;
use vstd::string::StringExecFns;
use crate::json::{
    JsonValue, has_key, first_value, lemma_first_match_unique, find_field, str_eq, parse_text,
    to_text, json_text_of, json_parse_of,
};

verus! {

/// One frame of the subscription protocol.
#[derive(Debug, PartialEq, Eq)]
pub enum ProtocolMessage {
    /// Client opens the handshake; the payload carries the bearer
    /// token, when there is one.
    ConnectionInit { payload: Vec<(String, JsonValue)> },
    /// Server accepts the handshake.
    ConnectionAck,
    /// Server refuses the connection; fatal.
    ConnectionError { payload: JsonValue },
    /// Client starts one subscription.
    Subscribe { id: String, query: String, variables: Vec<(String, JsonValue)> },
    /// Server delivers one datum to one subscription.
    Next { id: String, payload: JsonValue },
    /// Server reports an error on one subscription; not terminal.
    Error { id: String, payload: JsonValue },
    /// Either side ends one subscription.
    Complete { id: String },
    /// Server keep-alive.
    Pong,
}

/// The object's first field tags it `tag`.
pub open spec fn tag_rel(fs: Seq<(String, JsonValue)>, tag: Seq<char>) -> bool {
    &&& fs.len() >= 1
    &&& fs[0].0@ == "type"@
    &&& match fs[0].1 {
        JsonValue::Str(t) => t@ == tag,
        _ => false,
    }
}

/// An object of exactly tag, id and payload fields, in that order.
pub open spec fn id_payload_rel(
    fs: Seq<(String, JsonValue)>,
    tag: Seq<char>,
    id: String,
    payload: JsonValue,
) -> bool {
    &&& fs.len() == 3
    &&& tag_rel(fs, tag)
    &&& fs[1].0@ == "id"@
    &&& fs[1].1 == JsonValue::Str(id)
    &&& fs[2].0@ == "payload"@
    &&& fs[2].1 == payload
}

/// How a frame reads as a JSON object: the shape `to_json` builds.
pub open spec fn msg_json_rel(m: ProtocolMessage, v: JsonValue) -> bool {
    match v {
        JsonValue::Obj(fobj) => {
            let fs = fobj@;
            match m {
                ProtocolMessage::ConnectionInit { payload } => {
                    &&& fs.len() == 2
                    &&& tag_rel(fs, "connection_init"@)
                    &&& fs[1].0@ == "payload"@
                    &&& fs[1].1 == JsonValue::Obj(payload)
                },
                ProtocolMessage::ConnectionAck => fs.len() == 1 && tag_rel(
                    fs,
                    "connection_ack"@,
                ),
                ProtocolMessage::ConnectionError { payload } => {
                    &&& fs.len() == 2
                    &&& tag_rel(fs, "connection_error"@)
                    &&& fs[1].0@ == "payload"@
                    &&& fs[1].1 == payload
                },
                ProtocolMessage::Subscribe { id, query, variables } => {
                    &&& fs.len() == 3
                    &&& tag_rel(fs, "subscribe"@)
                    &&& fs[1].0@ == "id"@
                    &&& fs[1].1 == JsonValue::Str(id)
                    &&& fs[2].0@ == "payload"@
                    &&& match fs[2].1 {
                        JsonValue::Obj(pl) => {
                            &&& pl@.len() == 2
                            &&& pl@[0].0@ == "query"@
                            &&& pl@[0].1 == JsonValue::Str(query)
                            &&& pl@[1].0@ == "variables"@
                            &&& pl@[1].1 == JsonValue::Obj(variables)
                        },
                        _ => false,
                    }
                },
                ProtocolMessage::Next { id, payload } => id_payload_rel(fs, "next"@, id, payload),
                ProtocolMessage::Error { id, payload } => id_payload_rel(fs, "error"@, id, payload),
                ProtocolMessage::Complete { id } => {
                    &&& fs.len() == 2
                    &&& tag_rel(fs, "complete"@)
                    &&& fs[1].0@ == "id"@
                    &&& fs[1].1 == JsonValue::Str(id)
                },
                ProtocolMessage::Pong => fs.len() == 1 && tag_rel(fs, "pong"@),
            }
        },
        _ => false,
    }
}

/// The first value keyed `key`, when any pair carries it.
pub open spec fn spec_field(fs: Seq<(String, JsonValue)>, key: Seq<char>) -> Option<JsonValue> {
    if has_key(fs, key) {
        Some(first_value(fs, key))
    } else {
        None
    }
}

pub open spec fn spec_decode_init(fs: Seq<(String, JsonValue)>) -> Option<ProtocolMessage> {
    match spec_field(fs, "payload"@) {
        Some(JsonValue::Obj(pl)) => Some(ProtocolMessage::ConnectionInit { payload: pl }),
        _ => None,
    }
}

pub open spec fn spec_decode_conn_error(fs: Seq<(String, JsonValue)>) -> Option<ProtocolMessage> {
    match spec_field(fs, "payload"@) {
        Some(p) => Some(ProtocolMessage::ConnectionError { payload: p }),
        None => None,
    }
}

pub open spec fn spec_decode_subscribe(fs: Seq<(String, JsonValue)>) -> Option<ProtocolMessage> {
    match (spec_field(fs, "id"@), spec_field(fs, "payload"@)) {
        (Some(JsonValue::Str(id)), Some(JsonValue::Obj(pl))) => {
            match (spec_field(pl@, "query"@), spec_field(pl@, "variables"@)) {
                (Some(JsonValue::Str(query)), Some(JsonValue::Obj(vars))) => Some(
                    ProtocolMessage::Subscribe { id, query, variables: vars },
                ),
                _ => None,
            }
        },
        _ => None,
    }
}

pub open spec fn spec_decode_next(fs: Seq<(String, JsonValue)>) -> Option<ProtocolMessage> {
    match (spec_field(fs, "id"@), spec_field(fs, "payload"@)) {
        (Some(JsonValue::Str(id)), Some(p)) => Some(ProtocolMessage::Next { id, payload: p }),
        _ => None,
    }
}

pub open spec fn spec_decode_error(fs: Seq<(String, JsonValue)>) -> Option<ProtocolMessage> {
    match (spec_field(fs, "id"@), spec_field(fs, "payload"@)) {
        (Some(JsonValue::Str(id)), Some(p)) => Some(ProtocolMessage::Error { id, payload: p }),
        _ => None,
    }
}

pub open spec fn spec_decode_complete(fs: Seq<(String, JsonValue)>) -> Option<ProtocolMessage> {
    match spec_field(fs, "id"@) {
        Some(JsonValue::Str(id)) => Some(ProtocolMessage::Complete { id }),
        _ => None,
    }
}

/// The frame read from a JSON document: dispatch on the `type` tag;
/// anything unknown or malformed reads as nothing.
pub open spec fn spec_from_json(v: JsonValue) -> Option<ProtocolMessage> {
    match v {
        JsonValue::Obj(fields) => {
            match spec_field(fields@, "type"@) {
                Some(JsonValue::Str(t)) => {
                    if t@ == "connection_init"@ {
                        spec_decode_init(fields@)
                    } else if t@ == "connection_ack"@ {
                        Some(ProtocolMessage::ConnectionAck)
                    } else if t@ == "connection_error"@ {
                        spec_decode_conn_error(fields@)
                    } else if t@ == "subscribe"@ {
                        spec_decode_subscribe(fields@)
                    } else if t@ == "next"@ {
                        spec_decode_next(fields@)
                    } else if t@ == "error"@ {
                        spec_decode_error(fields@)
                    } else if t@ == "complete"@ {
                        spec_decode_complete(fields@)
                    } else if t@ == "pong"@ {
                        Some(ProtocolMessage::Pong)
                    } else {
                        None
                    }
                },
                _ => None,
            }
        },
        _ => None,
    }
}

/// Builds the JSON object of a frame.
pub fn to_json(m: ProtocolMessage) -> (v: JsonValue)
    ensures
        msg_json_rel(m, v),
{
    match m {
        ProtocolMessage::ConnectionInit { payload } => {
            let mut fields: Vec<(String, JsonValue)> = Vec::new();
            fields.push(
                (String::from_str("type"), JsonValue::Str(String::from_str("connection_init"))),
            );
            fields.push((String::from_str("payload"), JsonValue::Obj(payload)));
            JsonValue::Obj(fields)
        },
        ProtocolMessage::ConnectionAck => {
            let mut fields: Vec<(String, JsonValue)> = Vec::new();
            fields.push(
                (String::from_str("type"), JsonValue::Str(String::from_str("connection_ack"))),
            );
            JsonValue::Obj(fields)
        },
        ProtocolMessage::ConnectionError { payload } => {
            let mut fields: Vec<(String, JsonValue)> = Vec::new();
            fields.push(
                (String::from_str("type"), JsonValue::Str(String::from_str("connection_error"))),
            );
            fields.push((String::from_str("payload"), payload));
            JsonValue::Obj(fields)
        },
        ProtocolMessage::Subscribe { id, query, variables } => {
            let mut pl: Vec<(String, JsonValue)> = Vec::new();
            pl.push((String::from_str("query"), JsonValue::Str(query)));
            pl.push((String::from_str("variables"), JsonValue::Obj(variables)));
            let mut fields: Vec<(String, JsonValue)> = Vec::new();
            fields.push((String::from_str("type"), JsonValue::Str(String::from_str("subscribe"))));
            fields.push((String::from_str("id"), JsonValue::Str(id)));
            fields.push((String::from_str("payload"), JsonValue::Obj(pl)));
            JsonValue::Obj(fields)
        },
        ProtocolMessage::Next { id, payload } => {
            let mut fields: Vec<(String, JsonValue)> = Vec::new();
            fields.push((String::from_str("type"), JsonValue::Str(String::from_str("next"))));
            fields.push((String::from_str("id"), JsonValue::Str(id)));
            fields.push((String::from_str("payload"), payload));
            JsonValue::Obj(fields)
        },
        ProtocolMessage::Error { id, payload } => {
            let mut fields: Vec<(String, JsonValue)> = Vec::new();
            fields.push((String::from_str("type"), JsonValue::Str(String::from_str("error"))));
            fields.push((String::from_str("id"), JsonValue::Str(id)));
            fields.push((String::from_str("payload"), payload));
            JsonValue::Obj(fields)
        },
        ProtocolMessage::Complete { id } => {
            let mut fields: Vec<(String, JsonValue)> = Vec::new();
            fields.push((String::from_str("type"), JsonValue::Str(String::from_str("complete"))));
            fields.push((String::from_str("id"), JsonValue::Str(id)));
            JsonValue::Obj(fields)
        },
        ProtocolMessage::Pong => {
            let mut fields: Vec<(String, JsonValue)> = Vec::new();
            fields.push((String::from_str("type"), JsonValue::Str(String::from_str("pong"))));
            JsonValue::Obj(fields)
        },
    }
}

/// Reads a frame back from a JSON document.
pub fn from_json(v: JsonValue) -> (r: Option<ProtocolMessage>)
    ensures
        r == spec_from_json(v),
{
    let mut fields = match v {
        JsonValue::Obj(fields) => fields,
        _ => {
            return None;
        },
    };
    let ti = match find_field(&fields, "type") {
        Some(i) => i,
        None => {
            return None;
        },
    };
    proof {
        lemma_first_match_unique(fields@, "type"@, ti as int);
    }
    let tag_is_init: bool;
    let tag_is_ack: bool;
    let tag_is_conn_error: bool;
    let tag_is_subscribe: bool;
    let tag_is_next: bool;
    let tag_is_error: bool;
    let tag_is_complete: bool;
    let tag_is_pong: bool;
    match &fields[ti].1 {
        JsonValue::Str(t) => {
            tag_is_init = str_eq(t.as_str(), "connection_init");
            tag_is_ack = str_eq(t.as_str(), "connection_ack");
            tag_is_conn_error = str_eq(t.as_str(), "connection_error");
            tag_is_subscribe = str_eq(t.as_str(), "subscribe");
            tag_is_next = str_eq(t.as_str(), "next");
            tag_is_error = str_eq(t.as_str(), "error");
            tag_is_complete = str_eq(t.as_str(), "complete");
            tag_is_pong = str_eq(t.as_str(), "pong");
        },
        _ => {
            return None;
        },
    }
    if tag_is_init {
        let pi = match find_field(&fields, "payload") {
            Some(i) => i,
            None => {
                return None;
            },
        };
        proof {
            lemma_first_match_unique(fields@, "payload"@, pi as int);
        }
        match fields.remove(pi).1 {
            JsonValue::Obj(pl) => Some(ProtocolMessage::ConnectionInit { payload: pl }),
            _ => None,
        }
    } else if tag_is_ack {
        Some(ProtocolMessage::ConnectionAck)
    } else if tag_is_conn_error {
        let pi = match find_field(&fields, "payload") {
            Some(i) => i,
            None => {
                return None;
            },
        };
        proof {
            lemma_first_match_unique(fields@, "payload"@, pi as int);
        }
        Some(ProtocolMessage::ConnectionError { payload: fields.remove(pi).1 })
    } else if tag_is_subscribe {
        let (idv, pv) = match take_id_payload(&mut fields) {
            Some(r) => r,
            None => {
                return None;
            },
        };
        let id = match idv {
            JsonValue::Str(id) => id,
            _ => {
                return None;
            },
        };
        let mut pl = match pv {
            JsonValue::Obj(pl) => pl,
            _ => {
                return None;
            },
        };
        let qi = match find_field(&pl, "query") {
            Some(i) => i,
            None => {
                return None;
            },
        };
        proof {
            lemma_first_match_unique(pl@, "query"@, qi as int);
        }
        let vi = match find_field(&pl, "variables") {
            Some(i) => i,
            None => {
                return None;
            },
        };
        proof {
            lemma_first_match_unique(pl@, "variables"@, vi as int);
            reveal_strlit("query");
            reveal_strlit("variables");
            assert("query"@.len() == 5);
            assert("variables"@.len() == 9);
            assert(pl@[qi as int].0@ == "query"@);
            assert(pl@[vi as int].0@ == "variables"@);
            assert(qi != vi);
        }
        let (qv, vv) = take_two(&mut pl, qi, vi);
        let query = match qv {
            JsonValue::Str(q) => q,
            _ => {
                return None;
            },
        };
        let vars = match vv {
            JsonValue::Obj(vs) => vs,
            _ => {
                return None;
            },
        };
        Some(ProtocolMessage::Subscribe { id, query, variables: vars })
    } else if tag_is_next {
        let (idv, pv) = match take_id_payload(&mut fields) {
            Some(r) => r,
            None => {
                return None;
            },
        };
        match idv {
            JsonValue::Str(id) => Some(ProtocolMessage::Next { id, payload: pv }),
            _ => None,
        }
    } else if tag_is_error {
        let (idv, pv) = match take_id_payload(&mut fields) {
            Some(r) => r,
            None => {
                return None;
            },
        };
        match idv {
            JsonValue::Str(id) => Some(ProtocolMessage::Error { id, payload: pv }),
            _ => None,
        }
    } else if tag_is_complete {
        let ii = match find_field(&fields, "id") {
            Some(i) => i,
            None => {
                return None;
            },
        };
        proof {
            lemma_first_match_unique(fields@, "id"@, ii as int);
        }
        match fields.remove(ii).1 {
            JsonValue::Str(id) => Some(ProtocolMessage::Complete { id }),
            _ => None,
        }
    } else if tag_is_pong {
        Some(ProtocolMessage::Pong)
    } else {
        None
    }
}

/// Moves the first `id` and the first `payload` value out of `fields`.
fn take_id_payload(fields: &mut Vec<(String, JsonValue)>) -> (r: Option<(JsonValue, JsonValue)>)
    ensures
        match r {
            Some(p) => {
                &&& spec_field(old(fields)@, "id"@) == Some(p.0)
                &&& spec_field(old(fields)@, "payload"@) == Some(p.1)
            },
            None => {
                spec_field(old(fields)@, "id"@) is None || spec_field(old(fields)@, "payload"@)
                    is None
            },
        },
{
    let ii = match find_field(fields, "id") {
        Some(i) => i,
        None => {
            return None;
        },
    };
    proof {
        lemma_first_match_unique(fields@, "id"@, ii as int);
    }
    let pi = match find_field(fields, "payload") {
        Some(i) => i,
        None => {
            return None;
        },
    };
    proof {
        lemma_first_match_unique(fields@, "payload"@, pi as int);
        reveal_strlit("id");
        reveal_strlit("payload");
        assert("id"@.len() == 2);
        assert("payload"@.len() == 7);
        assert(fields@[ii as int].0@ == "id"@);
        assert(fields@[pi as int].0@ == "payload"@);
        assert(ii != pi);
    }
    let (idv, pv) = take_two(fields, ii, pi);
    Some((idv, pv))
}

/// Moves the values at two distinct indexes out of `pairs`.
fn take_two(pairs: &mut Vec<(String, JsonValue)>, i: usize, j: usize) -> (r: (
    JsonValue,
    JsonValue,
))
    requires
        i < old(pairs)@.len(),
        j < old(pairs)@.len(),
        i != j,
    ensures
        r.0 == old(pairs)@[i as int].1,
        r.1 == old(pairs)@[j as int].1,
{
    if i > j {
        let a = pairs.remove(i).1;
        let b = pairs.remove(j).1;
        (a, b)
    } else {
        let b = pairs.remove(j).1;
        let a = pairs.remove(i).1;
        (a, b)
    }
}

/// The frame read from wire text: parse, then decode.
pub open spec fn spec_decode_text(t: Seq<char>) -> Option<ProtocolMessage> {
    match json_parse_of(t) {
        Some(v) => spec_from_json(v),
        None => None,
    }
}

/// Writes a frame as wire text.
pub fn encode_frame(m: ProtocolMessage) -> (r: String)
    ensures
        exists|v: JsonValue| #[trigger] msg_json_rel(m, v) && r@ == json_text_of(v),
{
    let v = to_json(m);
    let r = to_text(&v);
    proof {
        assert(msg_json_rel(m, v) && r@ == json_text_of(v));
    }
    r
}

/// Reads a frame from wire text; None when the text is not JSON or not
/// a known frame.
pub fn decode_frame(s: &str) -> (r: Option<ProtocolMessage>)
    ensures
        r == spec_decode_text(s@),
{
    match parse_text(s) {
        Some(v) => from_json(v),
        None => None,
    }
}

/// Decoding an encoded frame yields the frame itself: the codec loses
/// nothing, whichever variant and whichever payloads and id strings the
/// frame carries.
pub proof fn lemma_codec_round_trip(m: ProtocolMessage, v: JsonValue)
    requires
        msg_json_rel(m, v),
    ensures
        spec_from_json(v) == Some(m),
{
    reveal_strlit("type");
    reveal_strlit("id");
    reveal_strlit("payload");
    reveal_strlit("query");
    reveal_strlit("variables");
    reveal_strlit("connection_init");
    reveal_strlit("connection_ack");
    reveal_strlit("connection_error");
    reveal_strlit("subscribe");
    reveal_strlit("next");
    reveal_strlit("error");
    reveal_strlit("complete");
    reveal_strlit("pong");
    assert("type"@.len() == 4);
    assert("id"@.len() == 2);
    assert("payload"@.len() == 7);
    assert("query"@.len() == 5);
    assert("variables"@.len() == 9);
    assert("connection_init"@.len() == 15);
    assert("connection_ack"@.len() == 14);
    assert("connection_error"@.len() == 16);
    assert("subscribe"@.len() == 9);
    assert("next"@.len() == 4);
    assert("error"@.len() == 5);
    assert("complete"@.len() == 8);
    assert("pong"@.len() == 4);
    assert("pong"@[0] == 'p');
    assert("next"@[0] == 'n');
    assert("pong"@ != "next"@);
    let fobj = v->Obj_0;
    let fs = fobj@;
    lemma_first_match_unique(fs, "type"@, 0);
    match m {
        ProtocolMessage::ConnectionInit { payload } => {
            assert(fs[0].0@ != "payload"@);
            lemma_first_match_unique(fs, "payload"@, 1);
        },
        ProtocolMessage::ConnectionAck => {},
        ProtocolMessage::ConnectionError { payload } => {
            assert(fs[0].0@ != "payload"@);
            lemma_first_match_unique(fs, "payload"@, 1);
        },
        ProtocolMessage::Subscribe { id, query, variables } => {
            assert(fs[0].0@ != "id"@);
            lemma_first_match_unique(fs, "id"@, 1);
            assert(fs[0].0@ != "payload"@);
            assert(fs[1].0@ != "payload"@);
            lemma_first_match_unique(fs, "payload"@, 2);
            let pl = fs[2].1->Obj_0;
            lemma_first_match_unique(pl@, "query"@, 0);
            assert(pl@[0].0@ != "variables"@);
            lemma_first_match_unique(pl@, "variables"@, 1);
        },
        ProtocolMessage::Next { id, payload } => {
            assert(fs[0].0@ != "id"@);
            lemma_first_match_unique(fs, "id"@, 1);
            assert(fs[0].0@ != "payload"@);
            assert(fs[1].0@ != "payload"@);
            lemma_first_match_unique(fs, "payload"@, 2);
        },
        ProtocolMessage::Error { id, payload } => {
            assert(fs[0].0@ != "id"@);
            lemma_first_match_unique(fs, "id"@, 1);
            assert(fs[0].0@ != "payload"@);
            assert(fs[1].0@ != "payload"@);
            lemma_first_match_unique(fs, "payload"@, 2);
        },
        ProtocolMessage::Complete { id } => {
            assert(fs[0].0@ != "id"@);
            lemma_first_match_unique(fs, "id"@, 1);
        },
        ProtocolMessage::Pong => {},
    }
}

} // verus!
