//! The packet codec: the one unit of wire exchange, its exact byte layout,
//! and the pure transforms between a logical (identifier, type, text)
//! triple and the bytes that carry it. Every field of the layout is fixed:
//! a little-endian 32-bit size counting everything after itself, then the
//! id and type fields, then the payload — the text's UTF-8 bytes closed by
//! two null bytes.

use vstd::prelude::*;
use vstd::slice::{slice_subrange, slice_to_vec};
use vstd::string::StrSliceExecFns;
use vstd::utf8::encode_utf8;

use crate::RconError;
use crate::text::{trim_bytes, trim_chars, trim_trailing, utf8_lossy, utf8_lossy_string};
use crate::text::{lemma_trim_bytes_encode_utf8, lemma_trim_bytes_terminator};
use crate::wire::{i32_from_le, lemma_i32_le_round_trip, push_i32_le, spec_i32_from_le,
    spec_i32_to_le};

verus! {

/// One framed unit of the wire protocol, ready to be serialized into raw
/// bytes or just decoded from them.
pub struct RconPacket {
    /// Total byte length of everything following the size field itself:
    /// the id and type fields plus the payload. Derived, never set
    /// independently of the payload.
    pub size: i32,
    /// Signed identifier correlating a response to the request that
    /// produced it, or carrying a sentinel chosen by the client.
    pub id: i32,
    /// The packet's purpose: `2` for command execution (also one of the
    /// two auth-response types), `3` for an authenticate request.
    pub cmd: i32,
    /// The payload bytes. An outgoing payload is the text's UTF-8 bytes
    /// followed by exactly two null bytes; an incoming payload is read
    /// back as text by stripping trailing nulls and whitespace.
    pub data: Vec<u8>,
}

impl RconPacket {
    /// The size field counts the 8 bytes of the id and type fields plus
    /// the payload.
    pub open spec fn wf(self) -> bool {
        self.size == 8 + self.data@.len()
    }

    /// The text this packet's payload reads as: trailing nulls and
    /// whitespace stripped, the rest decoded as UTF-8.
    pub open spec fn spec_text(self) -> Seq<char> {
        utf8_lossy(trim_bytes(self.data@))
    }

    /// True when this packet is the wire form of the given triple: the
    /// payload is the text's UTF-8 bytes plus the two-null terminator and
    /// the size field counts it.
    pub open spec fn encodes(self, id: i32, cmd: i32, text: Seq<char>) -> bool {
        &&& self.id == id
        &&& self.cmd == cmd
        &&& self.data@ == encode_utf8(text) + seq![0u8, 0u8]
        &&& self.wf()
    }

    /// The exact bytes this packet occupies on the wire.
    pub open spec fn spec_wire(self) -> Seq<u8> {
        spec_i32_to_le(self.size) + spec_i32_to_le(self.id) + spec_i32_to_le(self.cmd)
            + self.data@
    }

    /// Creates the packet that carries the given identifier, type and
    /// text.
    pub fn new(id: i32, cmd: i32, data: &str) -> (r: RconPacket)
        requires
            encode_utf8(data@).len() + 10 <= i32::MAX,
        ensures
            r.encodes(id, cmd, data@),
    {
        let mut payload = data.as_bytes_vec();
        payload.push(0);
        payload.push(0);
        proof {
            assert(payload@ =~= encode_utf8(data@) + seq![0u8, 0u8]);
        }
        let size = 8 + (payload.len() as i32);
        RconPacket { size, id, cmd, data: payload }
    }

    /// Serializes the packet into the raw bytes to be sent over the wire.
    pub fn into_bytes(self) -> (r: Vec<u8>)
        ensures
            r@ == self.spec_wire(),
    {
        let mut bytes: Vec<u8> = Vec::new();
        push_i32_le(&mut bytes, self.size);
        push_i32_le(&mut bytes, self.id);
        push_i32_le(&mut bytes, self.cmd);
        bytes.extend_from_slice(self.data.as_slice());
        proof {
            assert(bytes@ =~= self.spec_wire());
        }
        bytes
    }

    /// The size value of the packet.
    pub fn get_size(&self) -> (r: i32)
        ensures
            r == self.size,
    {
        self.size
    }

    /// The id value of the packet.
    pub fn get_id(&self) -> (r: i32)
        ensures
            r == self.id,
    {
        self.id
    }

    /// The command code of the packet.
    pub fn get_cmd(&self) -> (r: i32)
        ensures
            r == self.cmd,
    {
        self.cmd
    }

    /// The payload of the packet as a slice of bytes.
    pub fn get_data(&self) -> (r: &[u8])
        ensures
            r@ == self.data@,
    {
        self.data.as_slice()
    }

    /// The text the payload reads as, trailing nulls and whitespace
    /// stripped.
    pub fn get_data_string(&self) -> (r: String)
        ensures
            r@ == self.spec_text(),
    {
        let trimmed = trim_trailing(&self.data);
        utf8_lossy_string(trimmed.as_slice())
    }
}

/// The size field a frame declares at `start`.
pub open spec fn frame_size(bytes: Seq<u8>, start: int) -> int {
    spec_i32_from_le(bytes.subrange(start, start + 4)) as int
}

/// The id field of the frame at `start`.
pub open spec fn frame_id(bytes: Seq<u8>, start: int) -> i32 {
    spec_i32_from_le(bytes.subrange(start + 4, start + 8))
}

/// The type field of the frame at `start`.
pub open spec fn frame_cmd(bytes: Seq<u8>, start: int) -> i32 {
    spec_i32_from_le(bytes.subrange(start + 8, start + 12))
}

/// Where the frame at `start` ends: the size field counts every byte
/// after itself, and itself occupies four.
pub open spec fn frame_end(bytes: Seq<u8>, start: int) -> int {
    start + 4 + frame_size(bytes, start)
}

/// True when `bytes` holds a complete frame at `start`: a full header,
/// a declared size that at least covers the id and type fields, and as
/// many payload bytes as the size declares.
pub open spec fn frame_ok(bytes: Seq<u8>, start: int) -> bool {
    &&& 0 <= start
    &&& start + 12 <= bytes.len()
    &&& frame_size(bytes, start) >= 8
    &&& frame_end(bytes, start) <= bytes.len()
}

/// The payload bytes of the frame at `start`.
pub open spec fn frame_payload(bytes: Seq<u8>, start: int) -> Seq<u8> {
    bytes.subrange(start + 12, frame_end(bytes, start))
}

/// Decodes the frame that begins at `start` in `bytes`. Returns the packet
/// and the position just past it; fails with `TruncatedStream` exactly
/// when fewer bytes are available than the frame declares, or the declared
/// size cannot even cover the id and type fields.
pub fn decode_frame(bytes: &Vec<u8>, start: usize) -> (r: Result<(RconPacket, usize), RconError>)
    ensures
        r is Ok <==> frame_ok(bytes@, start as int),
        r matches Ok(pn) ==> ({
            &&& pn.0.size == frame_size(bytes@, start as int)
            &&& pn.0.id == frame_id(bytes@, start as int)
            &&& pn.0.cmd == frame_cmd(bytes@, start as int)
            &&& pn.0.data@ == frame_payload(bytes@, start as int)
            &&& pn.0.wf()
            &&& pn.1 == frame_end(bytes@, start as int)
        }),
        r is Err ==> r == Err::<(RconPacket, usize), RconError>(RconError::TruncatedStream),
{
    if bytes.len() < 12 || start > bytes.len() - 12 {
        return Err(RconError::TruncatedStream);
    }
    let size = i32_from_le(slice_subrange(bytes.as_slice(), start, start + 4));
    let id = i32_from_le(slice_subrange(bytes.as_slice(), start + 4, start + 8));
    let cmd = i32_from_le(slice_subrange(bytes.as_slice(), start + 8, start + 12));
    if size < 8 {
        return Err(RconError::TruncatedStream);
    }
    let body = (size - 8) as usize;
    if body > bytes.len() - (start + 12) {
        return Err(RconError::TruncatedStream);
    }
    let data = slice_to_vec(slice_subrange(bytes.as_slice(), start + 12, start + 12 + body));
    let next = start + 12 + body;
    Ok((RconPacket { size, id, cmd, data }, next))
}

/// The size field is no free choice: every packet built from a text
/// declares exactly the 8 bytes of the id and type fields plus the
/// text's UTF-8 bytes and the two-byte terminator.
pub proof fn lemma_size_field(p: RconPacket, id: i32, cmd: i32, text: Seq<char>)
    requires
        p.encodes(id, cmd, text),
    ensures
        p.size == 8 + (encode_utf8(text).len() + 2),
{
}

/// Round trip: the wire bytes of an encoded packet decode as one complete
/// frame that ends where the bytes do and yields the identifier, the type,
/// the payload — and, read as text, exactly the encoded text after
/// trimming.
pub proof fn lemma_round_trip(p: RconPacket, id: i32, cmd: i32, text: Seq<char>)
    requires
        p.encodes(id, cmd, text),
    ensures
        frame_ok(p.spec_wire(), 0),
        frame_size(p.spec_wire(), 0) == p.size,
        frame_id(p.spec_wire(), 0) == id,
        frame_cmd(p.spec_wire(), 0) == cmd,
        frame_payload(p.spec_wire(), 0) == p.data@,
        frame_end(p.spec_wire(), 0) == p.spec_wire().len(),
        utf8_lossy(trim_bytes(frame_payload(p.spec_wire(), 0))) == trim_chars(text),
{
    lemma_i32_le_round_trip();
    let w = p.spec_wire();
    assert(w.subrange(0, 4) =~= spec_i32_to_le(p.size));
    assert(w.subrange(4, 8) =~= spec_i32_to_le(p.id));
    assert(w.subrange(8, 12) =~= spec_i32_to_le(p.cmd));
    assert(w.len() == 12 + p.data@.len());
    assert(frame_size(w, 0) == p.size);
    assert(frame_payload(w, 0) =~= p.data@);
    lemma_trim_bytes_terminator(encode_utf8(text));
    lemma_trim_bytes_encode_utf8(text);
    broadcast use vstd::utf8::encode_utf8_valid_utf8;
    broadcast use vstd::utf8::encode_utf8_decode_utf8;

    assert(utf8_lossy(trim_bytes(p.data@)) == trim_chars(text));
}

} // verus!
