//! The control-stream codec: length-framed packets carrying JSON request and
//! response envelopes. Frames are a four-byte big-endian payload length
//! followed by the payload. Requests are JSON objects with `method` and
//! `data` fields; responses carry a numeric `status` and a JSON `body`.

use vstd::prelude::*;
use crate::textfmt::{spec_u64_text, u64_text};

verus! {

/// Largest accepted payload, in bytes. A frame announcing more than this is
/// a protocol error and the stream carrying it is dropped.
pub const MAX_PACKET_BYTES: usize = 1048576;

/// Why a control stream's input was rejected.
#[derive(Clone, Copy, Debug, PartialEq, Eq, Structural)]
pub enum CodecError {
    /// The frame header announced an oversized payload.
    FrameTooLarge,
    /// The payload was not a JSON object with a string `method` and a `data`
    /// field.
    BadEnvelope,
}

/// The payload length announced by the first four header bytes.
pub open spec fn spec_be_len(b: Seq<u8>) -> int {
    (b[0] as int) * 16777216 + (b[1] as int) * 65536 + (b[2] as int) * 256 + (b[3] as int)
}

/// Four-byte big-endian rendering of a payload length.
pub open spec fn spec_be4(n: int) -> Seq<u8> {
    seq![
        ((n / 16777216) % 256) as u8,
        ((n / 65536) % 256) as u8,
        ((n / 256) % 256) as u8,
        (n % 256) as u8,
    ]
}

/// Reading back a written header yields the written length.
pub proof fn lemma_be4_roundtrip(n: int)
    requires
        0 <= n < 4294967296,
    ensures
        spec_be_len(spec_be4(n)) == n,
{
    let b = spec_be4(n);
    assert(b[0] == ((n / 16777216) % 256) as u8);
    assert(spec_be_len(b) == ((n / 16777216) % 256) * 16777216 + ((n / 65536) % 256) * 65536 + ((n
        / 256) % 256) * 256 + n % 256);
    assert(((n / 16777216) % 256) * 16777216 + ((n / 65536) % 256) * 65536 + ((n / 256) % 256)
        * 256 + n % 256 == n) by (nonlinear_arith)
        requires
            0 <= n < 4294967296,
    ;
}

/// A complete, well-sized frame sits at the front of the buffer.
pub open spec fn spec_packet_ready(buf: Seq<u8>) -> bool {
    &&& buf.len() >= 4
    &&& spec_be_len(buf) <= MAX_PACKET_BYTES
    &&& buf.len() >= 4 + spec_be_len(buf)
}

/// The header at the front of the buffer announces an oversized payload.
pub open spec fn spec_frame_err(buf: Seq<u8>) -> bool {
    buf.len() >= 4 && spec_be_len(buf) > MAX_PACKET_BYTES
}

/// The payload of the complete frame at the front of the buffer.
pub open spec fn spec_packet_payload(buf: Seq<u8>) -> Seq<u8> {
    buf.subrange(4, 4 + spec_be_len(buf))
}

/// What remains of the buffer once the frame at the front is consumed.
pub open spec fn spec_packet_rest(buf: Seq<u8>) -> Seq<u8> {
    buf.skip(4 + spec_be_len(buf))
}

/// Incremental decoder for one control stream: accumulates the bytes read
/// from the socket and hands out complete frame payloads.
pub struct StreamDecoder {
    pub buf: Vec<u8>,
}

impl StreamDecoder {
    pub fn new() -> (r: StreamDecoder)
        ensures
            r.buf@.len() == 0,
    {
        StreamDecoder { buf: Vec::new() }
    }

    /// Append freshly read bytes.
    pub fn feed(&mut self, bytes: &Vec<u8>)
        ensures
            final(self).buf@ == old(self).buf@ + bytes@,
    {
        let n = bytes.len();
        let mut i: usize = 0;
        while i < n
            invariant
                n == bytes@.len(),
                i <= n,
                self.buf@ == old(self).buf@ + bytes@.take(i as int),
            decreases n - i,
        {
            self.buf.push(bytes[i]);
            proof {
                assert(old(self).buf@ + bytes@.take(i as int + 1) =~= (old(self).buf@ + bytes@.take(
                    i as int,
                )).push(bytes@[i as int]));
            }
            i += 1;
        }
        proof {
            assert(bytes@.take(n as int) =~= bytes@);
        }
    }

    /// Try to take one complete frame off the front of the buffer.
    pub fn try_packet(&mut self) -> (r: Result<Option<Vec<u8>>, CodecError>)
        ensures
            spec_frame_err(old(self).buf@) ==> r == Result::<Option<Vec<u8>>, CodecError>::Err(
                CodecError::FrameTooLarge,
            ) && *final(self) == *old(self),
            spec_packet_ready(old(self).buf@) ==> {
                &&& r matches Ok(p)
                &&& p matches Some(payload)
                &&& payload@ == spec_packet_payload(old(self).buf@)
                &&& final(self).buf@ == spec_packet_rest(old(self).buf@)
            },
            !spec_frame_err(old(self).buf@) && !spec_packet_ready(old(self).buf@) ==> r
                == Result::<Option<Vec<u8>>, CodecError>::Ok(None) && *final(self) == *old(self),
    {
        if self.buf.len() < 4 {
            return Ok(None);
        }
        let b0 = self.buf[0] as usize;
        let b1 = self.buf[1] as usize;
        let b2 = self.buf[2] as usize;
        let b3 = self.buf[3] as usize;
        let n: usize = b0 * 16777216 + b1 * 65536 + b2 * 256 + b3;
        if n > MAX_PACKET_BYTES {
            return Err(CodecError::FrameTooLarge);
        }
        if self.buf.len() < 4 + n {
            return Ok(None);
        }
        let ghost buf0 = self.buf@;
        let tail = self.buf.split_off(4);
        let mut payload = tail;
        let rest = payload.split_off(n);
        self.buf = rest;
        proof {
            assert(payload@ =~= spec_packet_payload(buf0));
            assert(self.buf@ =~= spec_packet_rest(buf0));
        }
        Ok(Some(payload))
    }
}

/// Frame a payload: the four-byte big-endian length, then the payload.
pub fn encode_packet(payload: &Vec<u8>) -> (r: Vec<u8>)
    requires
        payload@.len() <= MAX_PACKET_BYTES,
    ensures
        r@ == spec_be4(payload@.len() as int) + payload@,
        spec_packet_ready(r@),
        spec_packet_payload(r@) == payload@,
        spec_packet_rest(r@) == Seq::<u8>::empty(),
{
    let n = payload.len();
    let mut r: Vec<u8> = Vec::new();
    r.push(((n / 16777216) % 256) as u8);
    r.push(((n / 65536) % 256) as u8);
    r.push(((n / 256) % 256) as u8);
    r.push((n % 256) as u8);
    let m = payload.len();
    let mut i: usize = 0;
    while i < m
        invariant
            m == payload@.len(),
            i <= m,
            r@ == spec_be4(m as int) + payload@.take(i as int),
        decreases m - i,
    {
        r.push(payload[i]);
        proof {
            assert(spec_be4(m as int) + payload@.take(i as int + 1) =~= (spec_be4(m as int)
                + payload@.take(i as int)).push(payload@[i as int]));
        }
        i += 1;
    }
    proof {
        assert(payload@.take(m as int) =~= payload@);
        lemma_be4_roundtrip(m as int);
        assert(spec_packet_payload(r@) =~= payload@);
        assert(spec_packet_rest(r@) =~= Seq::<u8>::empty());
    }
    r
}

/// The response envelope text for a status and an already serialized body.
pub open spec fn spec_envelope(status: int, body: Seq<char>) -> Seq<char> {
    "{\"status\":"@ + spec_u64_text(status) + ",\"body\":"@ + body + "}"@
}

/// Build the JSON response envelope around a serialized body.
pub fn encode_envelope(status: u64, body: &str) -> (r: String)
    ensures
        r@ == spec_envelope(status as int, body@),
{
    proof {
        reveal_strlit("{\"status\":");
        reveal_strlit(",\"body\":");
        reveal_strlit("}");
    }
    let mut r = String::from_str("{\"status\":");
    let digits = u64_text(status);
    r.append(digits.as_str());
    r.append(",\"body\":");
    r.append(body);
    r.append("}");
    r
}

/// The four control methods, plus everything else, which is ignored.
#[derive(Clone, Copy, Debug, PartialEq, Eq, Structural)]
pub enum MethodKind {
    Exec,
    RunMain,
    Start,
    WriteHosts,
    Unknown,
}

/// Which control method a request names.
pub open spec fn spec_method_kind(m: Seq<char>) -> MethodKind {
    if m == "exec"@ {
        MethodKind::Exec
    } else if m == "run_main"@ {
        MethodKind::RunMain
    } else if m == "start"@ {
        MethodKind::Start
    } else if m == "write_hosts"@ {
        MethodKind::WriteHosts
    } else {
        MethodKind::Unknown
    }
}

/// Classify a request's method name.
pub fn method_kind(method: &String) -> (r: MethodKind)
    ensures
        r == spec_method_kind(method@),
{
    proof {
        reveal_strlit("exec");
        reveal_strlit("run_main");
        reveal_strlit("start");
        reveal_strlit("write_hosts");
    }
    if *method == String::from_str("exec") {
        MethodKind::Exec
    } else if *method == String::from_str("run_main") {
        MethodKind::RunMain
    } else if *method == String::from_str("start") {
        MethodKind::Start
    } else if *method == String::from_str("write_hosts") {
        MethodKind::WriteHosts
    } else {
        MethodKind::Unknown
    }
}

/// The declared shape of `serde_json`'s value type; opaque to the verifier.
#[verifier::external_type_specification]
#[verifier::external_body]
pub struct ExJsonValue(serde_json::Value);

/// The declared shape of `serde_json`'s error type; opaque to the verifier.
#[verifier::external_type_specification]
#[verifier::external_body]
pub struct ExJsonError(serde_json::Error);

/// Name for what serde_json::from_slice decides: whether the bytes parse
/// as a JSON document. Parsing is deterministic, so this is a function of
/// the bytes alone.
pub uninterp spec fn spec_json_ok(bytes: Seq<u8>) -> bool;

/// Name for what the document parsed from the bytes holds: whether it is
/// an object with a member of this name.
pub uninterp spec fn spec_doc_has_member(bytes: Seq<u8>, key: Seq<char>) -> bool;

/// Name for the text of the named member of the document parsed from the
/// bytes, when that member is a string.
pub uninterp spec fn spec_doc_member_text(bytes: Seq<u8>, key: Seq<char>) -> Option<Seq<char>>;

/// Name for what a parsed value holds: whether it is an object with a
/// member of this name.
pub uninterp spec fn spec_has_member(v: serde_json::Value, key: Seq<char>) -> bool;

/// Name for the text of a parsed value's named member, when that member is
/// a string.
pub uninterp spec fn spec_member_text(v: serde_json::Value, key: Seq<char>) -> Option<Seq<char>>;

/// Name for a parsed value's own text, when it is a string.
pub uninterp spec fn spec_text_of(v: serde_json::Value) -> Option<Seq<char>>;

/// Relies on serde_json::from_slice to parse a JSON document from bytes:
/// it returns `Ok` exactly on parseable input, and because parsing is
/// deterministic, what the parsed document holds is a function of the
/// bytes alone.
#[verifier::external_body]
fn json_from_slice(bytes: &[u8]) -> (r: Result<serde_json::Value, serde_json::Error>)
    ensures
        (r is Ok) == spec_json_ok(bytes@),
        r matches Ok(v) ==> forall|k: Seq<char>|
            (#[trigger] spec_has_member(v, k)) == spec_doc_has_member(bytes@, k)
                && spec_member_text(v, k) == spec_doc_member_text(bytes@, k),
{
    serde_json::from_slice::<serde_json::Value>(bytes)
}

/// Relies on serde_json::Value::get to index an object by field name: it
/// finds exactly the named member, whose text is the member's text.
#[verifier::external_body]
fn json_get<'a>(v: &'a serde_json::Value, key: &str) -> (r: Option<&'a serde_json::Value>)
    ensures
        (r is Some) == spec_has_member(*v, key@),
        r matches Some(m) ==> spec_text_of(*m) == spec_member_text(*v, key@),
{
    v.get(key)
}

/// Relies on serde_json::Value::as_str to read a JSON string: it returns
/// the value's text exactly when the value is a string.
#[verifier::external_body]
fn json_as_str(v: &serde_json::Value) -> (r: Option<String>)
    ensures
        match r {
            Some(t) => spec_text_of(*v) == Some(t@),
            None => spec_text_of(*v) is None,
        },
{
    v.as_str().map(|s| s.to_owned())
}

/// Relies on serde_json::Value::clone.
#[verifier::external_body]
fn json_clone(v: &serde_json::Value) -> serde_json::Value {
    v.clone()
}

/// The payload is a well-formed request envelope: a JSON document with a
/// string `method` member and a `data` member.
pub open spec fn spec_envelope_ok(payload: Seq<u8>) -> bool {
    &&& spec_json_ok(payload)
    &&& spec_doc_has_member(payload, "method"@)
    &&& spec_doc_member_text(payload, "method"@) is Some
    &&& spec_doc_has_member(payload, "data"@)
}

/// Parse a frame payload as a request envelope: a JSON object carrying a
/// string `method` and a `data` value. The data value is handed back as
/// parsed JSON for the request-specific decoding that follows.
pub fn parse_request(payload: &Vec<u8>) -> (r: Result<
    (String, serde_json::Value),
    CodecError,
>)
    ensures
        (r is Ok) == spec_envelope_ok(payload@),
        r matches Ok((m, _)) ==> Some(m@) == spec_doc_member_text(payload@, "method"@),
        r matches Err(e) ==> e == CodecError::BadEnvelope,
{
    let value = match json_from_slice(payload.as_slice()) {
        Ok(v) => v,
        Err(_) => {
            return Err(CodecError::BadEnvelope);
        },
    };
    let method = match json_get(&value, "method") {
        Some(m) => match json_as_str(m) {
            Some(s) => s,
            None => {
                return Err(CodecError::BadEnvelope);
            },
        },
        None => {
            return Err(CodecError::BadEnvelope);
        },
    };
    let data = match json_get(&value, "data") {
        Some(d) => json_clone(d),
        None => {
            return Err(CodecError::BadEnvelope);
        },
    };
    Ok((method, data))
}

} // verus!
