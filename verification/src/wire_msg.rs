//! The framing of one user message on a QUIC stream.
//!
//! A message is three byte strings (header, destination, payload). On the wire it is a
//! 16-byte header followed by the three strings:
//!
//! | version | header len | dst len | payload len | reserved |
//! | 2 bytes |  4 bytes   | 4 bytes |   4 bytes   | 2 bytes  |
//!
//! All integers are big-endian.

use crate::errors::{RecvError, SendError};
use crate::utils::{bin_data_format, bin_data_text};
use vstd::prelude::*;

verus! {

/// Length of the message header on the wire.
pub const MSG_HEADER_LEN: usize = 16;

/// Version of the framing protocol written into every header.
pub const MSG_PROTOCOL_VERSION: u16 = 0x0002;

/// The most bytes that are read from one stream after the header.
pub const MAX_MSG_BODY_LEN: usize = 104857600;

/// The message bytes that comprise a message: (header, dst, payload).
pub type UsrMsgBytes = (Vec<u8>, Vec<u8>, Vec<u8>);

/// The message sent on the wire: the user's (header, dst, payload) bytes.
#[derive(Debug, PartialEq, Eq)]
pub struct WireMsg(pub UsrMsgBytes);

impl View for WireMsg {
    type V = (Seq<u8>, Seq<u8>, Seq<u8>);

    open spec fn view(&self) -> (Seq<u8>, Seq<u8>, Seq<u8>) {
        (self.0.0@, self.0.1@, self.0.2@)
    }
}

/// Big-endian bytes of a `u16`.
pub open spec fn be_u16(x: u16) -> Seq<u8> {
    seq![(x >> 8u16) as u8, x as u8]
}

/// Big-endian bytes of a `u32`.
pub open spec fn be_u32(x: u32) -> Seq<u8> {
    seq![(x >> 24u32) as u8, (x >> 16u32) as u8, (x >> 8u32) as u8, x as u8]
}

/// The `u16` whose big-endian bytes are `b0 b1`.
pub open spec fn u16_of_be(b0: u8, b1: u8) -> u16 {
    (((b0 as u16) << 8u16) | (b1 as u16)) as u16
}

/// The `u32` whose big-endian bytes are `b0 b1 b2 b3`.
pub open spec fn u32_of_be(b0: u8, b1: u8, b2: u8, b3: u8) -> u32 {
    (((b0 as u32) << 24u32) | ((b1 as u32) << 16u32) | ((b2 as u32) << 8u32) | (b3 as u32)) as u32
}

/// The header bytes for the given version and lengths.
pub open spec fn header_bytes(version: u16, header_len: u32, dst_len: u32, payload_len: u32) -> Seq<
    u8,
> {
    be_u16(version) + be_u32(header_len) + be_u32(dst_len) + be_u32(payload_len) + seq![0u8, 0u8]
}

/// Whether the three parts of a message can be framed: their total length fits in 32 bits.
pub open spec fn fits_frame(m: (Seq<u8>, Seq<u8>, Seq<u8>)) -> bool {
    m.0.len() + m.1.len() + m.2.len() <= u32::MAX
}

/// The bytes written to a stream for a message that fits a frame.
pub open spec fn encoding(m: (Seq<u8>, Seq<u8>, Seq<u8>)) -> Seq<u8> {
    header_bytes(MSG_PROTOCOL_VERSION, m.0.len() as u32, m.1.len() as u32, m.2.len() as u32) + m.0
        + m.1 + m.2
}

/// The header-length field of a header.
pub open spec fn header_field(h: Seq<u8>) -> nat {
    u32_of_be(h[2], h[3], h[4], h[5]) as nat
}

/// The destination-length field of a header.
pub open spec fn dst_field(h: Seq<u8>) -> nat {
    u32_of_be(h[6], h[7], h[8], h[9]) as nat
}

/// The payload-length field of a header.
pub open spec fn payload_field(h: Seq<u8>) -> nat {
    u32_of_be(h[10], h[11], h[12], h[13]) as nat
}

/// What reading a message gives, from its 16 header bytes and the bytes that followed them on
/// the stream.
pub open spec fn decoding(h: Seq<u8>, body: Seq<u8>) -> Result<
    (Seq<u8>, Seq<u8>, Seq<u8>),
    RecvError,
> {
    let hl = header_field(h);
    let dl = dst_field(h);
    let pl = payload_field(h);
    if body.len() == 0 {
        Err(RecvError::EmptyMsgPayload)
    } else if body.len() != hl + dl + pl {
        Err(RecvError::NotEnoughBytes)
    } else if pl == 0 {
        Err(RecvError::EmptyMsgPayload)
    } else {
        Ok((body.subrange(0, hl as int), body.subrange(hl as int, (hl + dl) as int), body.subrange((hl + dl) as int, body.len() as int)))
    }
}

/// Message header that is sent over the wire.
#[derive(Debug, Clone, Copy, PartialEq, Eq)]
pub struct MsgHeader {
    /// Framing protocol version.
    pub version: u16,
    /// Length of the user header bytes.
    pub user_header_len: u32,
    /// Length of the destination bytes.
    pub user_dst_len: u32,
    /// Length of the payload bytes.
    pub payload_len: u32,
    /// Reserved bytes, always zero.
    pub reserved: [u8; 2],
}

/// Big-endian bytes of a `u16`.
fn u16_to_be(x: u16) -> (r: (u8, u8))
    ensures
        seq![r.0, r.1] == be_u16(x),
{
    ((x >> 8u16) as u8, x as u8)
}

/// Big-endian bytes of a `u32`.
fn u32_to_be(x: u32) -> (r: (u8, u8, u8, u8))
    ensures
        seq![r.0, r.1, r.2, r.3] == be_u32(x),
{
    ((x >> 24u32) as u8, (x >> 16u32) as u8, (x >> 8u32) as u8, x as u8)
}

/// Reading big-endian bytes back gives the integer.
pub proof fn lemma_be_u32_roundtrip(x: u32)
    ensures
        u32_of_be(be_u32(x)[0], be_u32(x)[1], be_u32(x)[2], be_u32(x)[3]) == x,
{
    let b0 = (x >> 24u32) as u8;
    let b1 = (x >> 16u32) as u8;
    let b2 = (x >> 8u32) as u8;
    let b3 = x as u8;
    assert((((b0 as u32) << 24u32) | ((b1 as u32) << 16u32) | ((b2 as u32) << 8u32) | (b3 as u32))
        == x) by (bit_vector)
        requires
            b0 == (x >> 24u32) as u8,
            b1 == (x >> 16u32) as u8,
            b2 == (x >> 8u32) as u8,
            b3 == x as u8,
    ;
}

/// Reading big-endian bytes back gives the integer.
pub proof fn lemma_be_u16_roundtrip(x: u16)
    ensures
        u16_of_be(be_u16(x)[0], be_u16(x)[1]) == x,
{
    let b0 = (x >> 8u16) as u8;
    let b1 = x as u8;
    assert((((b0 as u16) << 8u16) | (b1 as u16)) == x) by (bit_vector)
        requires
            b0 == (x >> 8u16) as u8,
            b1 == x as u8,
    ;
}

impl MsgHeader {
    /// The header for a message with the given parts; fails when their total length does not
    /// fit in 32 bits.
    pub fn new(user_header: &[u8], user_dst: &[u8], payload: &[u8]) -> (r: Result<
        MsgHeader,
        SendError,
    >)
        requires
            user_header@.len() + user_dst@.len() + payload@.len() <= usize::MAX,
        ensures
            user_header@.len() + user_dst@.len() + payload@.len() <= u32::MAX ==> r == Ok::<
                MsgHeader,
                SendError,
            >(
                MsgHeader {
                    version: MSG_PROTOCOL_VERSION,
                    user_header_len: user_header@.len() as u32,
                    user_dst_len: user_dst@.len() as u32,
                    payload_len: payload@.len() as u32,
                    reserved: [0u8, 0u8],
                },
            ),
            user_header@.len() + user_dst@.len() + payload@.len() > u32::MAX ==> r == Err::<
                MsgHeader,
                SendError,
            >(SendError::MessageTooLong((user_header@.len() + user_dst@.len() + payload@.len()) as usize)),
    {
        let total_len = user_header.len() + user_dst.len() + payload.len();
        if total_len > 0xffff_ffffusize {
            return Err(SendError::MessageTooLong(total_len));
        }
        Ok(MsgHeader {
            version: MSG_PROTOCOL_VERSION,
            user_header_len: user_header.len() as u32,
            user_dst_len: user_dst.len() as u32,
            payload_len: payload.len() as u32,
            reserved: [0u8, 0u8],
        })
    }

    /// Length of the user header bytes.
    pub fn user_header_len(&self) -> (r: u32)
        ensures
            r == self.user_header_len,
    {
        self.user_header_len
    }

    /// Length of the destination bytes.
    pub fn user_dst_len(&self) -> (r: u32)
        ensures
            r == self.user_dst_len,
    {
        self.user_dst_len
    }

    /// Length of the payload bytes.
    pub fn user_payload_len(&self) -> (r: u32)
        ensures
            r == self.payload_len,
    {
        self.payload_len
    }

    /// The 16 bytes of this header on the wire; the reserved bytes are written as zeros.
    pub fn to_bytes(&self) -> (r: [u8; 16])
        ensures
            r@ == header_bytes(self.version, self.user_header_len, self.user_dst_len, self.payload_len),
    {
        let v = u16_to_be(self.version);
        let h = u32_to_be(self.user_header_len);
        let d = u32_to_be(self.user_dst_len);
        let p = u32_to_be(self.payload_len);
        let r = [v.0, v.1, h.0, h.1, h.2, h.3, d.0, d.1, d.2, d.3, p.0, p.1, p.2, p.3, 0u8, 0u8];
        assert(r@ =~= header_bytes(
            self.version,
            self.user_header_len,
            self.user_dst_len,
            self.payload_len,
        ));
        r
    }

    /// The header that 16 bytes hold; the reserved bytes read as zeros.
    pub fn from_bytes(bytes: [u8; 16]) -> (r: MsgHeader)
        ensures
            r.version == u16_of_be(bytes@[0], bytes@[1]),
            r.user_header_len == header_field(bytes@),
            r.user_dst_len == dst_field(bytes@),
            r.payload_len == payload_field(bytes@),
            r.reserved == [0u8, 0u8],
    {
        let version = ((bytes[0] as u16) << 8u16) | (bytes[1] as u16);
        let user_header_len = ((bytes[2] as u32) << 24u32) | ((bytes[3] as u32) << 16u32) | ((
        bytes[4] as u32) << 8u32) | (bytes[5] as u32);
        let user_dst_len = ((bytes[6] as u32) << 24u32) | ((bytes[7] as u32) << 16u32) | ((
        bytes[8] as u32) << 8u32) | (bytes[9] as u32);
        let payload_len = ((bytes[10] as u32) << 24u32) | ((bytes[11] as u32) << 16u32) | ((
        bytes[12] as u32) << 8u32) | (bytes[13] as u32);
        MsgHeader { version, user_header_len, user_dst_len, payload_len, reserved: [0u8, 0u8] }
    }
}


/// The bytes of `src` appended to `dst`.
fn append_bytes(dst: &mut Vec<u8>, src: &[u8])
    requires
        old(dst)@.len() + src@.len() <= usize::MAX,
    ensures
        final(dst)@ == old(dst)@ + src@,
{
    let ghost start = dst@;
    let mut i: usize = 0;
    while i < src.len()
        invariant
            i <= src@.len(),
            dst@ == start + src@.subrange(0, i as int),
        decreases src@.len() - i,
    {
        dst.push(src[i]);
        i = i + 1;
        assert(dst@ =~= start + src@.subrange(0, i as int));
    }
    assert(src@.subrange(0, src@.len() as int) =~= src@);
}

/// Writing big-endian bytes from an integer read from them gives the bytes back.
pub proof fn lemma_u32_of_be_roundtrip(b0: u8, b1: u8, b2: u8, b3: u8)
    ensures
        be_u32(u32_of_be(b0, b1, b2, b3)) == seq![b0, b1, b2, b3],
{
    let x = u32_of_be(b0, b1, b2, b3);
    assert((x >> 24u32) as u8 == b0 && (x >> 16u32) as u8 == b1 && (x >> 8u32) as u8 == b2
        && x as u8 == b3) by (bit_vector)
        requires
            x == (((b0 as u32) << 24u32) | ((b1 as u32) << 16u32) | ((b2 as u32) << 8u32) | (
            b3 as u32)) as u32,
    ;
    assert(be_u32(x) =~= seq![b0, b1, b2, b3]);
}

/// The length fields of the header of an encoded message are the lengths of its parts.
proof fn lemma_encoding_fields(m: (Seq<u8>, Seq<u8>, Seq<u8>))
    requires
        fits_frame(m),
    ensures
        encoding(m).len() == 16 + m.0.len() + m.1.len() + m.2.len(),
        encoding(m).subrange(0, 16) == header_bytes(
            MSG_PROTOCOL_VERSION,
            m.0.len() as u32,
            m.1.len() as u32,
            m.2.len() as u32,
        ),
        encoding(m).subrange(16, encoding(m).len() as int) == m.0 + m.1 + m.2,
        header_field(encoding(m).subrange(0, 16)) == m.0.len(),
        dst_field(encoding(m).subrange(0, 16)) == m.1.len(),
        payload_field(encoding(m).subrange(0, 16)) == m.2.len(),
{
    let hb = header_bytes(MSG_PROTOCOL_VERSION, m.0.len() as u32, m.1.len() as u32, m.2.len() as u32);
    assert(hb.len() == 16);
    assert(encoding(m) =~= hb + (m.0 + m.1 + m.2));
    assert(encoding(m).subrange(0, 16) =~= hb);
    assert(encoding(m).subrange(16, encoding(m).len() as int) =~= m.0 + m.1 + m.2);
    let h = m.0.len() as u32;
    let d = m.1.len() as u32;
    let p = m.2.len() as u32;
    lemma_be_u32_roundtrip(h);
    lemma_be_u32_roundtrip(d);
    lemma_be_u32_roundtrip(p);
    assert(hb[2] == be_u32(h)[0] && hb[3] == be_u32(h)[1] && hb[4] == be_u32(h)[2] && hb[5]
        == be_u32(h)[3]);
    assert(hb[6] == be_u32(d)[0] && hb[7] == be_u32(d)[1] && hb[8] == be_u32(d)[2] && hb[9]
        == be_u32(d)[3]);
    assert(hb[10] == be_u32(p)[0] && hb[11] == be_u32(p)[1] && hb[12] == be_u32(p)[2] && hb[13]
        == be_u32(p)[3]);
}

/// A message that fits a frame and has a non-empty payload is read back as itself from the
/// bytes written for it: the first 16 bytes as the header, the rest as the body.
pub proof fn lemma_encoding_then_decoding(m: (Seq<u8>, Seq<u8>, Seq<u8>))
    requires
        fits_frame(m),
        m.2.len() > 0,
    ensures
        decoding(
            encoding(m).subrange(0, MSG_HEADER_LEN as int),
            encoding(m).subrange(MSG_HEADER_LEN as int, encoding(m).len() as int),
        ) == Ok::<(Seq<u8>, Seq<u8>, Seq<u8>), RecvError>(m),
{
    lemma_encoding_fields(m);
    let body = m.0 + m.1 + m.2;
    let hl = m.0.len() as int;
    let dl = m.1.len() as int;
    assert(body.subrange(0, hl) =~= m.0);
    assert(body.subrange(hl, hl + dl) =~= m.1);
    assert(body.subrange(hl + dl, body.len() as int) =~= m.2);
}

/// Whatever is read successfully fits a frame, and writing it again gives the body that was
/// read; with a header of the current version and zero reserved bytes, it gives the header too.
/// (A body longer than 32 bits can address is read but cannot be written again.)
pub proof fn lemma_decoding_then_encoding(h: Seq<u8>, body: Seq<u8>)
    requires
        h.len() == MSG_HEADER_LEN,
        body.len() <= u32::MAX,
        decoding(h, body) is Ok,
    ensures
        fits_frame(decoding(h, body)->Ok_0),
        decoding(h, body)->Ok_0.2.len() > 0,
        encoding(decoding(h, body)->Ok_0).subrange(
            MSG_HEADER_LEN as int,
            encoding(decoding(h, body)->Ok_0).len() as int,
        ) == body,
        u16_of_be(h[0], h[1]) == MSG_PROTOCOL_VERSION && h[14] == 0 && h[15] == 0 ==> encoding(
            decoding(h, body)->Ok_0,
        ) == h + body,
{
    let m = decoding(h, body)->Ok_0;
    let hl = header_field(h) as int;
    let dl = dst_field(h) as int;
    assert(m.0 + m.1 + m.2 =~= body);
    assert(m.0.len() == hl && m.1.len() == dl && m.2.len() == payload_field(h));
    assert(header_field(h) <= u32::MAX && dst_field(h) <= u32::MAX && payload_field(h) <= u32::MAX);
    lemma_encoding_fields(m);
    if u16_of_be(h[0], h[1]) == MSG_PROTOCOL_VERSION && h[14] == 0 && h[15] == 0 {
        lemma_u32_of_be_roundtrip(h[2], h[3], h[4], h[5]);
        lemma_u32_of_be_roundtrip(h[6], h[7], h[8], h[9]);
        lemma_u32_of_be_roundtrip(h[10], h[11], h[12], h[13]);
        let v = u16_of_be(h[0], h[1]);
        let b0 = h[0];
        let b1 = h[1];
        assert((v >> 8u16) as u8 == b0 && v as u8 == b1) by (bit_vector)
            requires
                v == (((b0 as u16) << 8u16) | (b1 as u16)) as u16,
        ;
        let hb = header_bytes(MSG_PROTOCOL_VERSION, m.0.len() as u32, m.1.len() as u32, m.2.len() as u32);
        assert(hb =~= h);
        assert(encoding(m) =~= h + body);
    }
}

impl WireMsg {
    /// The text shown for this message: its three parts in the display format of binary data.
    pub fn to_display_string(&self) -> (r: String)
        ensures
            r@ == "WireMsg("@ + bin_data_text(self.0.0@) + " "@ + bin_data_text(self.0.1@) + " "@
                + bin_data_text(self.0.2@) + ")"@,
    {
        let mut out = String::from_str("WireMsg(");
        out.append(bin_data_format(self.0.0.as_slice()).as_str());
        out.append(" ");
        out.append(bin_data_format(self.0.1.as_slice()).as_str());
        out.append(" ");
        out.append(bin_data_format(self.0.2.as_slice()).as_str());
        out.append(")");
        out
    }

    /// The bytes written to a stream for this message: its header, then header, destination
    /// and payload bytes. Fails when the total length of the parts does not fit in 32 bits.
    pub fn to_stream_bytes(&self) -> (r: Result<Vec<u8>, SendError>)
        requires
            self.0.0@.len() + self.0.1@.len() + self.0.2@.len() + MSG_HEADER_LEN <= usize::MAX,
        ensures
            match r {
                Ok(bytes) => fits_frame(self@) && bytes@ == encoding(self@),
                Err(e) => !fits_frame(self@) && e == SendError::MessageTooLong(
                    (self.0.0@.len() + self.0.1@.len() + self.0.2@.len()) as usize,
                ),
            },
    {
        let header = MsgHeader::new(self.0.0.as_slice(), self.0.1.as_slice(), self.0.2.as_slice())?;
        let header_bytes = header.to_bytes();
        let mut all_bytes: Vec<u8> = Vec::new();
        append_bytes(&mut all_bytes, &header_bytes);
        append_bytes(&mut all_bytes, self.0.0.as_slice());
        append_bytes(&mut all_bytes, self.0.1.as_slice());
        append_bytes(&mut all_bytes, self.0.2.as_slice());
        assert(all_bytes@ =~= encoding(self@));
        Ok(all_bytes)
    }

    /// The message held by the bytes read from a stream: `header_bytes` are its first 16
    /// bytes, `all_bytes` all that followed them.
    pub fn from_stream_bytes(header_bytes: [u8; 16], all_bytes: Vec<u8>) -> (r: Result<
        WireMsg,
        RecvError,
    >)
        ensures
            r is Ok == decoding(header_bytes@, all_bytes@) is Ok,
            r matches Ok(m) ==> decoding(header_bytes@, all_bytes@) == Ok::<
                (Seq<u8>, Seq<u8>, Seq<u8>),
                RecvError,
            >(m@),
            r matches Err(e) ==> decoding(header_bytes@, all_bytes@) == Err::<
                (Seq<u8>, Seq<u8>, Seq<u8>),
                RecvError,
            >(e),
    {
        let msg_header = MsgHeader::from_bytes(header_bytes);
        if all_bytes.len() == 0 {
            return Err(RecvError::EmptyMsgPayload);
        }
        let header_length = msg_header.user_header_len();
        let dst_length = msg_header.user_dst_len();
        let payload_length = msg_header.user_payload_len();
        let total = header_length as u64 + dst_length as u64 + payload_length as u64;
        if all_bytes.len() as u64 != total {
            return Err(RecvError::NotEnoughBytes);
        }
        let ghost body = all_bytes@;
        let mut header_data = all_bytes;
        let mut dst_data = header_data.split_off(header_length as usize);
        let payload_data = dst_data.split_off(dst_length as usize);
        if payload_data.len() == 0 {
            Err(RecvError::EmptyMsgPayload)
        } else {
            proof {
                let hl = header_length as int;
                let dl = dst_length as int;
                assert(dst_data@ =~= body.subrange(hl, hl + dl));
                assert(payload_data@ =~= body.subrange(hl + dl, body.len() as int));
            }
            Ok(WireMsg((header_data, dst_data, payload_data)))
        }
    }
}

} // verus!
