//! The WSM frame header: an 8-byte, little-endian codec.
//!
//! Every frame on a stream is exactly this header followed by `payload_len`
//! bytes of payload. The codec is total: no opcode or payload-type validation
//! happens here, so unknown values travel through unchanged and are dealt with
//! at the dispatchers.

use vstd::prelude::*;
use vstd::bytes::{spec_u32_to_le_bytes, spec_u32_from_le_bytes, lemma_auto_spec_u32_to_from_le_bytes, u32_from_le_bytes, u32_to_le_bytes};

verus! {

/// Marks the final frame of a logical exchange when stored in `reserved`.
pub const RESERVED_FINAL_FLAG: u8 = 0xFF;

/// Opcode of the fatal-error frame a server sends before closing.
pub const OPCODE_ERROR_FATAL: u8 = 0xFF;

/// Generic reply keyed by the echoed message id.
pub const OPCODE_REPLY: u8 = 0x00;

/// Keep-alive request from the client.
pub const OPCODE_PING: u8 = 0x01;

/// Keep-alive answer from the server.
pub const OPCODE_PONG: u8 = 0x02;

/// Authentication request carrying the token.
pub const OPCODE_AUTH: u8 = 0x03;

/// Volume-list answer from the server.
pub const OPCODE_LIST_RESPONSE: u8 = 0x04;

/// Volume-list request from the client.
pub const OPCODE_LIST_REQUEST: u8 = 0x05;

/// Upload initiation carrying the metadata.
pub const OPCODE_UPLOAD_INIT: u8 = 0x06;

/// Worker-stream allocation request.
pub const OPCODE_WORKER_ALLOC: u8 = 0x07;

/// Chunk inquiry on a worker stream.
pub const OPCODE_CHUNK_INQUIRY: u8 = 0x08;

/// Chunk data on a worker stream.
pub const OPCODE_CHUNK_DATA: u8 = 0x09;

/// Finalize request after all chunks are stored.
pub const OPCODE_FINALIZE: u8 = 0x10;

/// First frame on a worker stream, binding it to an upload session.
pub const OPCODE_WORKER_HELLO: u8 = 0x11;

/// Symbolic names for the opcodes reserved by the protocol itself.
#[derive(Debug, Clone, Copy, PartialEq, Eq, Structural)]
pub enum OpCode {
    Ping,
    Auth,
    Data,
    Echo,
    Custom,
}

impl OpCode {
    /// The wire value of the opcode.
    pub open spec fn spec_code(self) -> u8 {
        match self {
            OpCode::Ping => 0x01,
            OpCode::Auth => 0x02,
            OpCode::Data => 0x03,
            OpCode::Echo => 0x04,
            OpCode::Custom => 0xFF,
        }
    }

    /// Returns the wire value of the opcode.
    pub fn code(self) -> (c: u8)
        ensures
            c == self.spec_code(),
    {
        match self {
            OpCode::Ping => 0x01,
            OpCode::Auth => 0x02,
            OpCode::Data => 0x03,
            OpCode::Echo => 0x04,
            OpCode::Custom => 0xFF,
        }
    }
}

impl OpCode {
    /// Looks a reserved opcode up by its name, folding ASCII case.
    pub fn from_name(name: &str) -> (r: Option<OpCode>)
        ensures
            ({
                let n = crate::text::spec_lower(name@);
                &&& r == Some(OpCode::Ping) <==> n == crate::text::spec_lower("ping"@)
                &&& r == Some(OpCode::Auth) <==> n == crate::text::spec_lower("auth"@)
                &&& r == Some(OpCode::Data) <==> n == crate::text::spec_lower("data"@)
                &&& r == Some(OpCode::Echo) <==> n == crate::text::spec_lower("echo"@)
                &&& r == Some(OpCode::Custom) <==> n == crate::text::spec_lower("custom"@)
            }),
    {
        proof {
            reveal_strlit("ping");
            reveal_strlit("auth");
            reveal_strlit("data");
            reveal_strlit("echo");
            reveal_strlit("custom");
            assert(crate::text::spec_lower("ping"@)[0] == 'p');
            assert(crate::text::spec_lower("auth"@)[0] == 'a');
            assert(crate::text::spec_lower("data"@)[0] == 'd');
            assert(crate::text::spec_lower("echo"@)[0] == 'e');
            assert(crate::text::spec_lower("custom"@)[0] == 'c');
        }
        if crate::text::eq_ignore_ascii_case(name, "ping") {
            Some(OpCode::Ping)
        } else if crate::text::eq_ignore_ascii_case(name, "auth") {
            Some(OpCode::Auth)
        } else if crate::text::eq_ignore_ascii_case(name, "data") {
            Some(OpCode::Data)
        } else if crate::text::eq_ignore_ascii_case(name, "echo") {
            Some(OpCode::Echo)
        } else if crate::text::eq_ignore_ascii_case(name, "custom") {
            Some(OpCode::Custom)
        } else {
            None
        }
    }
}

/// Tags describing what kind of bytes follow the header.
#[derive(Debug, Clone, Copy, PartialEq, Eq, Structural)]
pub enum PayloadType {
    Json,
    Bincode,
    Raw,
    Custom,
}

impl PayloadType {
    /// The wire value of the payload type.
    pub open spec fn spec_code(self) -> u8 {
        match self {
            PayloadType::Json => 0x01,
            PayloadType::Bincode => 0x02,
            PayloadType::Raw => 0x03,
            PayloadType::Custom => 0xFF,
        }
    }

    /// Returns the wire value of the payload type.
    pub fn code(self) -> (c: u8)
        ensures
            c == self.spec_code(),
    {
        match self {
            PayloadType::Json => 0x01,
            PayloadType::Bincode => 0x02,
            PayloadType::Raw => 0x03,
            PayloadType::Custom => 0xFF,
        }
    }
}

impl PayloadType {
    /// Looks a payload type up by its name, folding ASCII case.
    pub fn from_name(name: &str) -> (r: Option<PayloadType>)
        ensures
            ({
                let n = crate::text::spec_lower(name@);
                &&& r == Some(PayloadType::Json) <==> n == crate::text::spec_lower("json"@)
                &&& r == Some(PayloadType::Bincode) <==> n == crate::text::spec_lower("bincode"@)
                &&& r == Some(PayloadType::Raw) <==> n == crate::text::spec_lower("raw"@)
                &&& r == Some(PayloadType::Custom) <==> n == crate::text::spec_lower("custom"@)
            }),
    {
        proof {
            reveal_strlit("json");
            reveal_strlit("bincode");
            reveal_strlit("raw");
            reveal_strlit("custom");
            assert(crate::text::spec_lower("json"@)[0] == 'j');
            assert(crate::text::spec_lower("bincode"@)[0] == 'b');
            assert(crate::text::spec_lower("raw"@)[0] == 'r');
            assert(crate::text::spec_lower("custom"@)[0] == 'c');
        }
        if crate::text::eq_ignore_ascii_case(name, "json") {
            Some(PayloadType::Json)
        } else if crate::text::eq_ignore_ascii_case(name, "bincode") {
            Some(PayloadType::Bincode)
        } else if crate::text::eq_ignore_ascii_case(name, "raw") {
            Some(PayloadType::Raw)
        } else if crate::text::eq_ignore_ascii_case(name, "custom") {
            Some(PayloadType::Custom)
        } else {
            None
        }
    }
}

/// A full 8-byte frame header.
#[derive(Debug, Clone, Copy, PartialEq, Eq, Structural)]
pub struct WsmHeader {
    pub opcode: u8,
    pub message_id: u8,
    pub payload_type: u8,
    pub reserved: u8,
    pub payload_len: u32,
}

impl WsmHeader {
    /// The exact 8 bytes this header encodes to: four tag bytes, then the
    /// payload length in little-endian order.
    pub open spec fn spec_bytes(self) -> Seq<u8> {
        seq![self.opcode, self.message_id, self.payload_type, self.reserved]
            + spec_u32_to_le_bytes(self.payload_len)
    }

    /// The header a given 8-byte sequence decodes to.
    pub open spec fn spec_from_bytes(b: Seq<u8>) -> WsmHeader
        recommends
            b.len() == 8,
    {
        WsmHeader {
            opcode: b[0],
            message_id: b[1],
            payload_type: b[2],
            reserved: b[3],
            payload_len: spec_u32_from_le_bytes(b.subrange(4, 8)),
        }
    }

    /// Whether this header closes its logical exchange.
    pub open spec fn spec_is_final(self) -> bool {
        self.reserved == RESERVED_FINAL_FLAG
    }

    /// Builds a non-final header.
    pub fn new(opcode: u8, message_id: u8, payload_type: PayloadType, payload_len: u32) -> (h:
        WsmHeader)
        ensures
            h == (WsmHeader {
                opcode,
                message_id,
                payload_type: payload_type.spec_code(),
                reserved: 0u8,
                payload_len,
            }),
    {
        WsmHeader { opcode, message_id, payload_type: payload_type.code(), reserved: 0, payload_len }
    }

    /// Builds a header with an explicit `reserved` byte.
    pub fn with_reserved(
        opcode: u8,
        message_id: u8,
        payload_type: PayloadType,
        payload_len: u32,
        reserved: u8,
    ) -> (h: WsmHeader)
        ensures
            h == (WsmHeader {
                opcode,
                message_id,
                payload_type: payload_type.spec_code(),
                reserved,
                payload_len,
            }),
    {
        WsmHeader { opcode, message_id, payload_type: payload_type.code(), reserved, payload_len }
    }

    /// Encodes the header into its 8 wire bytes.
    pub fn to_bytes(&self) -> (b: Vec<u8>)
        ensures
            b@ == self.spec_bytes(),
            b@.len() == 8,
    {
        let mut b: Vec<u8> = Vec::new();
        b.push(self.opcode);
        b.push(self.message_id);
        b.push(self.payload_type);
        b.push(self.reserved);
        let mut len_bytes = u32_to_le_bytes(self.payload_len);
        b.append(&mut len_bytes);
        proof {
            assert(b@ =~= self.spec_bytes());
        }
        b
    }

    /// Decodes 8 wire bytes into a header.
    pub fn from_bytes(b: &[u8]) -> (h: WsmHeader)
        requires
            b@.len() == 8,
        ensures
            h == WsmHeader::spec_from_bytes(b@),
    {
        let len_slice: &[u8] = &b[4..8];
        proof {
            assert(len_slice@ =~= b@.subrange(4, 8));
        }
        let payload_len = u32_from_le_bytes(len_slice);
        WsmHeader {
            opcode: b[0],
            message_id: b[1],
            payload_type: b[2],
            reserved: b[3],
            payload_len,
        }
    }

    /// Whether this header closes its logical exchange.
    pub fn is_final(&self) -> (r: bool)
        ensures
            r == self.spec_is_final(),
    {
        self.reserved == RESERVED_FINAL_FLAG
    }
}

/// A whole frame on the wire: the header's 8 bytes followed by its payload.
pub open spec fn spec_frame(h: WsmHeader, payload: Seq<u8>) -> Seq<u8> {
    h.spec_bytes() + payload
}

/// Encodes a header and its payload into one contiguous frame.
pub fn encode_frame(h: &WsmHeader, payload: &[u8]) -> (v: Vec<u8>)
    requires
        payload@.len() == h.payload_len,
    ensures
        v@ == spec_frame(*h, payload@),
{
    let mut v = h.to_bytes();
    v.extend_from_slice(payload);
    proof {
        assert(v@ =~= spec_frame(*h, payload@));
    }
    v
}

/// Round trip: decoding the 8 bytes a header encodes to gives back exactly the
/// fields that were encoded, for every header.
pub proof fn lemma_header_round_trip(h: WsmHeader)
    ensures
        h.spec_bytes().len() == 8,
        WsmHeader::spec_from_bytes(h.spec_bytes()) == h,
{
    lemma_auto_spec_u32_to_from_le_bytes();
    assert(h.spec_bytes().subrange(4, 8) =~= spec_u32_to_le_bytes(h.payload_len));
}

/// Round trip in the other direction: any 8 bytes re-encode to themselves
/// after decoding.
pub proof fn lemma_bytes_round_trip(b: Seq<u8>)
    requires
        b.len() == 8,
    ensures
        WsmHeader::spec_from_bytes(b).spec_bytes() == b,
{
    lemma_auto_spec_u32_to_from_le_bytes();
    assert(WsmHeader::spec_from_bytes(b).spec_bytes() =~= b);
}

} // verus!
