//! How a message between peers is laid out in the bytes of a stream: its body, then one flag
//! byte that says whether the body is a user message's raw bytes or an encoded message.

use vstd::prelude::*;

verus! {

/// The flag byte after a user message's raw bytes.
pub const USER_MSG_FLAG: u8 = 0x00;

/// The flag byte after any other message, encoded.
pub const SERIALISED_MSG_FLAG: u8 = 0x01;

/// What the body of a framed message holds.
#[derive(Debug, Clone, Copy, PartialEq, Eq, Structural)]
pub enum BodyKind {
    /// A user message's raw bytes.
    User,
    /// An encoded message of the protocol.
    Serialised,
}

/// The flag byte of a body kind.
pub open spec fn flag_of(kind: BodyKind) -> u8 {
    match kind {
        BodyKind::User => USER_MSG_FLAG,
        BodyKind::Serialised => SERIALISED_MSG_FLAG,
    }
}

/// The bytes sent for a body of the given kind.
pub open spec fn framed(kind: BodyKind, body: Seq<u8>) -> Seq<u8> {
    body.push(flag_of(kind))
}

/// What the bytes read from a stream hold: the body and its kind, or nothing when there is no
/// flag byte or the flag is unknown.
pub open spec fn unframed(raw: Seq<u8>) -> Option<(BodyKind, Seq<u8>)> {
    if raw.len() == 0 {
        None
    } else if raw.last() == USER_MSG_FLAG {
        Some((BodyKind::User, raw.drop_last()))
    } else if raw.last() == SERIALISED_MSG_FLAG {
        Some((BodyKind::Serialised, raw.drop_last()))
    } else {
        None
    }
}

/// Frames a body of the given kind: the body, then its flag byte.
pub fn frame(kind: BodyKind, body: Vec<u8>) -> (r: Vec<u8>)
    ensures
        r@ == framed(kind, body@),
{
    let mut bytes = body;
    let flag = match kind {
        BodyKind::User => USER_MSG_FLAG,
        BodyKind::Serialised => SERIALISED_MSG_FLAG,
    };
    bytes.push(flag);
    bytes
}

/// Splits the bytes read from a stream into the body and its kind.
pub fn unframe(raw: Vec<u8>) -> (r: Option<(BodyKind, Vec<u8>)>)
    ensures
        match r {
            Some((k, b)) => unframed(raw@) == Some((k, b@)),
            None => unframed(raw@) is None,
        },
{
    let mut bytes = raw;
    let ghost before = bytes@;
    match bytes.pop() {
        None => None,
        Some(flag) => {
            assert(bytes@ =~= before.drop_last());
            if flag == USER_MSG_FLAG {
                Some((BodyKind::User, bytes))
            } else if flag == SERIALISED_MSG_FLAG {
                Some((BodyKind::Serialised, bytes))
            } else {
                None
            }
        },
    }
}

/// Reading a framed body gives back the body and its kind.
pub proof fn law_unframe_undoes_frame(kind: BodyKind, body: Seq<u8>)
    ensures
        unframed(framed(kind, body)) == Some((kind, body)),
{
    assert(framed(kind, body).drop_last() =~= body);
}

/// Bytes that are read as a body are the framing of that body.
pub proof fn law_frame_undoes_unframe(raw: Seq<u8>)
    ensures
        unframed(raw) matches Some((k, b)) ==> framed(k, b) == raw,
{
    if raw.len() > 0 {
        assert(raw.drop_last().push(raw.last()) =~= raw);
    }
}

} // verus!
