use std::hash::{Hash, Hasher};
use vstd::prelude::*;

use crate::text::{ascii_lowercase_view, concat, decimal, decimal_string, push_char, to_ascii_lowercase};

verus! {

/// The largest message payload one frame may carry.
pub const MAX_FRAME_BYTES: usize = 1048576;

/// Who is on the other end of a local connection.
#[derive(Clone, Copy, Debug, PartialEq, Eq, Structural)]
pub struct PeerCredentials {
    pub pid: Option<u32>,
    pub uid: u32,
}

/// Why a message could not be encoded or decoded.
#[derive(Debug)]
pub enum ProtocolError {
    Encode(String),
    Decode(String),
}

/// Why a message could not cross the local connection.
#[derive(Debug)]
pub enum IpcError {
    Io(String),
    Protocol(ProtocolError),
    FrameTooLarge(usize),
}

/// The text a user sees for each protocol error.
pub open spec fn protocol_error_text(error: ProtocolError) -> Seq<char> {
    match error {
        ProtocolError::Encode(detail) => "failed to encode protocol message: "@ + detail@,
        ProtocolError::Decode(detail) => "failed to decode protocol message: "@ + detail@,
    }
}

/// The text a user sees for each connection error.
pub open spec fn ipc_error_text(error: IpcError) -> Seq<char> {
    match error {
        IpcError::Io(detail) => "IPC I/O failed: "@ + detail@,
        IpcError::Protocol(inner) => "IPC protocol failed: "@ + protocol_error_text(inner),
        IpcError::FrameTooLarge(size) => "IPC frame is too large: "@ + decimal(size as nat) + " bytes"@,
    }
}

impl ProtocolError {
    /// The human-readable description of the error.
    pub fn message(&self) -> (text: String)
        ensures
            text@ == protocol_error_text(*self),
    {
        match self {
            ProtocolError::Encode(detail) => concat("failed to encode protocol message: ", detail.as_str()),
            ProtocolError::Decode(detail) => concat("failed to decode protocol message: ", detail.as_str()),
        }
    }
}

impl IpcError {
    /// The human-readable description of the error.
    pub fn message(&self) -> (text: String)
        ensures
            text@ == ipc_error_text(*self),
    {
        match self {
            IpcError::Io(detail) => concat("IPC I/O failed: ", detail.as_str()),
            IpcError::Protocol(inner) => {
                let inner_text = inner.message();
                concat("IPC protocol failed: ", inner_text.as_str())
            },
            IpcError::FrameTooLarge(size) => {
                let number = decimal_string(*size as u64);
                let text = concat("IPC frame is too large: ", number.as_str());
                concat(text.as_str(), " bytes")
            },
        }
    }
}

/// The four big-endian bytes of a frame length.
pub open spec fn length_header(length: u32) -> Seq<u8> {
    seq![
        ((length >> 24u32) & 0xffu32) as u8,
        ((length >> 16u32) & 0xffu32) as u8,
        ((length >> 8u32) & 0xffu32) as u8,
        (length & 0xffu32) as u8,
    ]
}

/// The length four big-endian bytes stand for.
pub open spec fn header_length(b0: u8, b1: u8, b2: u8, b3: u8) -> u32 {
    ((b0 as u32) << 24u32) | ((b1 as u32) << 16u32) | ((b2 as u32) << 8u32) | (b3 as u32)
}

/// Reading back a written length header gives the length again.
pub proof fn lemma_length_header_roundtrip(length: u32)
    ensures
        header_length(
            length_header(length)[0],
            length_header(length)[1],
            length_header(length)[2],
            length_header(length)[3],
        ) == length,
{
    let b0 = ((length >> 24u32) & 0xffu32) as u8;
    let b1 = ((length >> 16u32) & 0xffu32) as u8;
    let b2 = ((length >> 8u32) & 0xffu32) as u8;
    let b3 = (length & 0xffu32) as u8;
    assert((((b0 as u32) << 24u32) | ((b1 as u32) << 16u32) | ((b2 as u32) << 8u32) | (b3 as u32)) == length)
        by (bit_vector)
        requires
            b0 == ((length >> 24u32) & 0xffu32) as u8,
            b1 == ((length >> 16u32) & 0xffu32) as u8,
            b2 == ((length >> 8u32) & 0xffu32) as u8,
            b3 == (length & 0xffu32) as u8,
    ;
}

/// A message frame: the payload's length in four big-endian bytes, then the
/// payload; a payload over the frame limit is refused.
pub fn encode_frame(payload: &[u8]) -> (frame: Result<Vec<u8>, IpcError>)
    ensures
        payload@.len() > MAX_FRAME_BYTES ==> (frame matches Err(IpcError::FrameTooLarge(size)) && size == payload@.len()),
        payload@.len() <= MAX_FRAME_BYTES ==> (frame matches Ok(bytes) && bytes@ == length_header(
            payload@.len() as u32,
        ) + payload@),
{
    if payload.len() > MAX_FRAME_BYTES {
        return Err(IpcError::FrameTooLarge(payload.len()));
    }
    let length = payload.len() as u32;
    let mut bytes: Vec<u8> = Vec::new();
    bytes.push(((length >> 24u32) & 0xffu32) as u8);
    bytes.push(((length >> 16u32) & 0xffu32) as u8);
    bytes.push(((length >> 8u32) & 0xffu32) as u8);
    bytes.push((length & 0xffu32) as u8);
    assert(bytes@ =~= length_header(length));
    for i in 0..payload.len()
        invariant
            bytes@ == length_header(length) + payload@.subrange(0, i as int),
    {
        bytes.push(payload[i]);
        assert(bytes@ =~= length_header(length) + payload@.subrange(0, i + 1));
    }
    assert(payload@.subrange(0, payload@.len() as int) =~= payload@);
    Ok(bytes)
}

/// The payload length a frame header announces; one over the frame limit is
/// refused.
pub fn frame_length(header: [u8; 4]) -> (length: Result<usize, IpcError>)
    ensures
        ({
            let announced = header_length(header@[0], header@[1], header@[2], header@[3]);
            &&& announced > MAX_FRAME_BYTES ==> (length matches Err(IpcError::FrameTooLarge(size)) && size == announced)
            &&& announced <= MAX_FRAME_BYTES ==> length == Ok::<usize, IpcError>(announced as usize)
        }),
{
    let announced: u32 = ((header[0] as u32) << 24u32) | ((header[1] as u32) << 16u32) | ((header[2] as u32) << 8u32)
        | (header[3] as u32);
    if announced as usize > MAX_FRAME_BYTES {
        Err(IpcError::FrameTooLarge(announced as usize))
    } else {
        Ok(announced as usize)
    }
}

/// A frame built for a payload announces that payload's length.
pub proof fn lemma_frame_roundtrip(payload: Seq<u8>)
    requires
        payload.len() <= MAX_FRAME_BYTES,
    ensures
        ({
            let frame = length_header(payload.len() as u32) + payload;
            &&& header_length(frame[0], frame[1], frame[2], frame[3]) == payload.len()
            &&& frame.subrange(4, frame.len() as int) == payload
        }),
{
    let frame = length_header(payload.len() as u32) + payload;
    lemma_length_header_roundtrip(payload.len() as u32);
    assert(frame[0] == length_header(payload.len() as u32)[0]);
    assert(frame[1] == length_header(payload.len() as u32)[1]);
    assert(frame[2] == length_header(payload.len() as u32)[2]);
    assert(frame[3] == length_header(payload.len() as u32)[3]);
    assert(frame.subrange(4, frame.len() as int) =~= payload);
}

/// The lowercase hex digit of a value below sixteen.
pub open spec fn hex_digit_char(d: nat) -> char {
    if d < 10 {
        ((d + '0' as nat) as u32) as char
    } else {
        ((d - 10 + 'a' as nat) as u32) as char
    }
}

/// The last `width` hex digits of `value`, zero-padded, most significant first.
pub open spec fn hex_fixed(value: nat, width: nat) -> Seq<char>
    decreases width,
{
    if width == 0 {
        Seq::empty()
    } else {
        hex_fixed(value / 16, (width - 1) as nat).push(hex_digit_char(value % 16))
    }
}

/// Appends the last `width` hex digits of `value`.
fn push_hex(text: &mut String, value: u64, width: u32)
    ensures
        final(text)@ == old(text)@ + hex_fixed(value as nat, width as nat),
    decreases width,
{
    if width > 0 {
        push_hex(text, value / 16, width - 1);
        let d = value % 16;
        let c = if d < 10 { ((d as u32) + ('0' as u32)) as u8 as char } else { ((d as u32) - 10 + ('a' as u32)) as u8 as char };
        assert(c == hex_digit_char(d as nat));
        push_char(text, c);
        assert(text@ =~= old(text)@ + hex_fixed(value as nat, width as nat));
    }
}

/// What `std::hash::DefaultHasher` computes for a path (`Path::hash`, then
/// `finish`).
pub uninterp spec fn path_hash_value(path: Seq<char>) -> u64;

/// Hashes a path with a fresh `DefaultHasher`, whose keys are fixed, so the
/// value depends on the path alone; the contract names it.
#[verifier::external_body]
fn path_hash(path: &str) -> (hash: u64)
    ensures
        hash == path_hash_value(path@),
{
    let mut hasher = std::hash::DefaultHasher::new();
    std::path::Path::new(path).hash(&mut hasher);
    hasher.finish()
}

/// The named pipe for an endpoint on Windows: a path already in the pipe
/// namespace (in any letter case) stays as it is; any other path stands for a
/// pipe named after its hash.
pub open spec fn named_pipe_path_view(path: Seq<char>) -> Seq<char> {
    let lower = ascii_lowercase_view(path);
    if lower.len() >= 9 && lower.subrange(0, 9) == "\\\\.\\pipe\\"@ {
        path
    } else {
        "\\\\.\\pipe\\ZeroBeat-test-"@ + hex_fixed(path_hash_value(path) as nat, 16)
    }
}

/// The named pipe for an endpoint on Windows.
pub fn named_pipe_path(path: &str) -> (pipe: String)
    ensures
        pipe@ == named_pipe_path_view(path@),
{
    let lower = to_ascii_lowercase(path);
    let prefix = "\\\\.\\pipe\\";
    proof {
        reveal_strlit("\\\\.\\pipe\\");
    }
    if lower.as_str().unicode_len() >= 9 {
        let head = lower.as_str().substring_char(0, 9).to_owned();
        let wanted = prefix.to_owned();
        if head.eq(&wanted) {
            return path.to_owned();
        }
    }
    let hash = path_hash(path);
    let mut pipe = "\\\\.\\pipe\\ZeroBeat-test-".to_owned();
    push_hex(&mut pipe, hash, 16);
    pipe
}

/// What `rmp_serde` reports when `bytes` are read as one MessagePack value of
/// any shape: nothing when they are one, else the error's text.
pub uninterp spec fn msgpack_error(bytes: Seq<u8>) -> Option<Seq<char>>;

/// Reads `bytes` with `rmp_serde::from_slice` into `serde::de::IgnoredAny`, which
/// accepts any well-formed value, and hands back the error's text if that fails.
/// The contract names the result; it depends on the bytes alone.
#[verifier::external_body]
fn msgpack_parse_error(bytes: &[u8]) -> (error: Option<String>)
    ensures
        match error {
            Some(e) => msgpack_error(bytes@) == Some(e@),
            None => msgpack_error(bytes@) is None,
        },
{
    rmp_serde::from_slice::<serde::de::IgnoredAny>(bytes).err().map(|error| error.to_string())
}

/// Refuses a message payload that is not one well-formed MessagePack value,
/// before it is decoded into a message.
pub fn check_message_payload(bytes: &[u8]) -> (checked: Result<(), ProtocolError>)
    ensures
        msgpack_error(bytes@) is None ==> checked is Ok,
        msgpack_error(bytes@) matches Some(e) ==> (checked matches Err(ProtocolError::Decode(d)) && d@ == e),
{
    match msgpack_parse_error(bytes) {
        None => Ok(()),
        Some(error) => Err(ProtocolError::Decode(error)),
    }
}

/// The security descriptor of a named pipe that only the user with `sid` and the
/// system may use, in SDDL: a protected list granting both full access.
pub open spec fn pipe_security_sddl_view(sid: Seq<char>) -> Seq<char> {
    "D:P(A;;GA;;;"@ + sid + ")(A;;GA;;;SY)"@
}

/// The SDDL text of a named pipe reserved to the user with `sid` and the system.
pub fn pipe_security_sddl(sid: &str) -> (sddl: String)
    ensures
        sddl@ == pipe_security_sddl_view(sid@),
{
    let head = concat("D:P(A;;GA;;;", sid);
    concat(head.as_str(), ")(A;;GA;;;SY)")
}

} // verus!
