//! The wire protocol: one message per connection direction, framed as a
//! single discriminant byte followed by a variant-specific payload.

use vstd::prelude::*;

verus! {

/// Discriminant byte of a `GetStatus` request.
pub const TAG_GET_STATUS: u8 = 0;

/// Discriminant byte of a `SetID` request; followed by one index byte.
pub const TAG_SET_ID: u8 = 1;

/// Discriminant byte of a `NextID` request.
pub const TAG_NEXT_ID: u8 = 2;

/// Discriminant byte of a `ReStatus` reply; followed by a length byte and
/// that many title bytes.
pub const TAG_RE_STATUS: u8 = 128;

/// Discriminant byte of a `ReErrNoID` reply.
pub const TAG_RE_ERR_NO_ID: u8 = 129;

/// Discriminant byte of a `ReErrIdiot` reply.
pub const TAG_RE_ERR_IDIOT: u8 = 130;

/// Discriminant byte of a `ReErrUnkwn` reply.
pub const TAG_RE_ERR_UNKWN: u8 = 131;

/// One protocol message. Requests and replies share a single discriminant
/// space but are never valid in each other's direction; the dispatcher, not
/// the codec, enforces that.
#[derive(Clone, Debug, PartialEq, Eq)]
pub enum Message {
    /// Request: ask for the title of the currently selected action.
    GetStatus,
    /// Request: select the action at the carried index.
    SetID(u8),
    /// Request: advance the selection by one, wrapping at the end.
    NextID,
    /// Reply: success; carries the selected action's title bytes.
    ReStatus(Vec<u8>),
    /// Reply: the requested index names no configured action.
    ReErrNoID,
    /// Reply: a reply-family message arrived as a request.
    ReErrIdiot,
    /// Reply: the inbound discriminant byte is not part of the protocol.
    ReErrUnkwn,
}

/// Decoding failed because the input ends before the frame does. Over a live
/// stream this is the shape an interrupted peer takes; it is distinct from an
/// unrecognized discriminant, which decodes successfully to `Ok(None)`.
#[derive(Clone, Copy, Debug, PartialEq, Eq, Structural)]
pub enum DecodeError {
    /// The input holds fewer bytes than the frame announced.
    Truncated,
}

/// The exact bytes a message occupies on the wire.
pub open spec fn spec_encode(m: Message) -> Seq<u8> {
    match m {
        Message::GetStatus => seq![TAG_GET_STATUS],
        Message::SetID(i) => seq![TAG_SET_ID, i],
        Message::NextID => seq![TAG_NEXT_ID],
        Message::ReStatus(b) => seq![TAG_RE_STATUS, b@.len() as u8] + b@,
        Message::ReErrNoID => seq![TAG_RE_ERR_NO_ID],
        Message::ReErrIdiot => seq![TAG_RE_ERR_IDIOT],
        Message::ReErrUnkwn => seq![TAG_RE_ERR_UNKWN],
    }
}

/// True of the discriminant bytes the protocol defines.
pub open spec fn tag_known(d: u8) -> bool {
    ||| d == TAG_GET_STATUS
    ||| d == TAG_SET_ID
    ||| d == TAG_NEXT_ID
    ||| d == TAG_RE_STATUS
    ||| d == TAG_RE_ERR_NO_ID
    ||| d == TAG_RE_ERR_IDIOT
    ||| d == TAG_RE_ERR_UNKWN
}

/// How many bytes the frame starting at `s[0]` occupies in total, as far as
/// the bytes already present determine it. An unrecognized discriminant is a
/// one-byte frame.
pub open spec fn spec_frame_len(s: Seq<u8>) -> int
    recommends
        s.len() >= 1,
{
    if s[0] == TAG_SET_ID {
        2
    } else if s[0] == TAG_RE_STATUS {
        if s.len() >= 2 {
            2 + s[1]
        } else {
            2
        }
    } else {
        1
    }
}

/// True when `s` already holds one whole frame.
pub open spec fn frame_complete(s: Seq<u8>) -> bool {
    s.len() >= 1 && s.len() >= spec_frame_len(s)
}

/// The two messages carry the same protocol content: same variant, and
/// payloads equal byte for byte.
pub open spec fn same_message(m1: Message, m2: Message) -> bool {
    match (m1, m2) {
        (Message::GetStatus, Message::GetStatus) => true,
        (Message::SetID(a), Message::SetID(b)) => a == b,
        (Message::NextID, Message::NextID) => true,
        (Message::ReStatus(a), Message::ReStatus(b)) => a@ == b@,
        (Message::ReErrNoID, Message::ReErrNoID) => true,
        (Message::ReErrIdiot, Message::ReErrIdiot) => true,
        (Message::ReErrUnkwn, Message::ReErrUnkwn) => true,
        _ => false,
    }
}

/// Everything `Message::read` promises of its result `r` on input `bytes`:
/// truncation fails, an unknown discriminant in a whole frame yields no
/// message, and a decoded message is well formed and encodes back to the
/// front of the input.
pub open spec fn read_post(bytes: Seq<u8>, r: Result<Option<Message>, DecodeError>) -> bool {
    &&& (r is Err <==> !frame_complete(bytes))
    &&& ((r matches Ok(None)) <==> (frame_complete(bytes) && !tag_known(bytes[0])))
    &&& (r matches Ok(Some(m)) ==> m.wf() && spec_encode(m).is_prefix_of(bytes))
}

impl Message {
    /// Well formed: a `ReStatus` payload fits behind its one length byte.
    /// Every other variant is unconditionally well formed.
    pub open spec fn wf(self) -> bool {
        match self {
            Message::ReStatus(b) => b@.len() <= 255,
            _ => true,
        }
    }

    /// True of the three variants a client may send.
    pub open spec fn is_request(self) -> bool {
        match self {
            Message::GetStatus | Message::SetID(_) | Message::NextID => true,
            _ => false,
        }
    }

    /// Encode this message as its wire bytes.
    pub fn as_raw_bytes(&self) -> (r: Vec<u8>)
        requires
            self.wf(),
        ensures
            r@ == spec_encode(*self),
    {
        match self {
            Message::GetStatus => {
                let mut v: Vec<u8> = Vec::new();
                v.push(TAG_GET_STATUS);
                proof {
                    assert(v@ =~= spec_encode(*self));
                }
                v
            },
            Message::SetID(i) => {
                let mut v: Vec<u8> = Vec::new();
                v.push(TAG_SET_ID);
                v.push(*i);
                proof {
                    assert(v@ =~= spec_encode(*self));
                }
                v
            },
            Message::NextID => {
                let mut v: Vec<u8> = Vec::new();
                v.push(TAG_NEXT_ID);
                proof {
                    assert(v@ =~= spec_encode(*self));
                }
                v
            },
            Message::ReStatus(b) => {
                let mut v: Vec<u8> = Vec::new();
                v.push(TAG_RE_STATUS);
                v.push(b.len() as u8);
                v.extend_from_slice(b.as_slice());
                proof {
                    assert(v@ =~= spec_encode(*self));
                }
                v
            },
            Message::ReErrNoID => {
                let mut v: Vec<u8> = Vec::new();
                v.push(TAG_RE_ERR_NO_ID);
                proof {
                    assert(v@ =~= spec_encode(*self));
                }
                v
            },
            Message::ReErrIdiot => {
                let mut v: Vec<u8> = Vec::new();
                v.push(TAG_RE_ERR_IDIOT);
                proof {
                    assert(v@ =~= spec_encode(*self));
                }
                v
            },
            Message::ReErrUnkwn => {
                let mut v: Vec<u8> = Vec::new();
                v.push(TAG_RE_ERR_UNKWN);
                proof {
                    assert(v@ =~= spec_encode(*self));
                }
                v
            },
        }
    }

    /// Decode one frame from the front of `bytes`; bytes past the frame are
    /// ignored. `Err` means the input ends before the frame does; `Ok(None)`
    /// means a whole frame arrived whose discriminant the protocol does not
    /// define — valid bytes, not an I/O fault.
    pub fn read(bytes: &[u8]) -> (r: Result<Option<Message>, DecodeError>)
        ensures
            read_post(bytes@, r),
    {
        if bytes.len() < 1 {
            return Err(DecodeError::Truncated);
        }
        let d = bytes[0];
        if d == TAG_GET_STATUS {
            proof {
                assert(spec_encode(Message::GetStatus).is_prefix_of(bytes@));
            }
            Ok(Some(Message::GetStatus))
        } else if d == TAG_SET_ID {
            if bytes.len() < 2 {
                return Err(DecodeError::Truncated);
            }
            let m = Message::SetID(bytes[1]);
            proof {
                assert(spec_encode(m) =~= bytes@.subrange(0, 2));
            }
            Ok(Some(m))
        } else if d == TAG_NEXT_ID {
            proof {
                assert(spec_encode(Message::NextID).is_prefix_of(bytes@));
            }
            Ok(Some(Message::NextID))
        } else if d == TAG_RE_STATUS {
            if bytes.len() < 2 {
                return Err(DecodeError::Truncated);
            }
            let len = bytes[1] as usize;
            if bytes.len() < 2 + len {
                return Err(DecodeError::Truncated);
            }
            let mut buff: Vec<u8> = Vec::new();
            let mut i: usize = 0;
            while i < len
                invariant
                    i <= len,
                    len <= 255,
                    len == bytes@[1],
                    bytes@.len() >= 2 + len,
                    buff@ =~= bytes@.subrange(2, 2 + i as int),
                decreases len - i,
            {
                buff.push(bytes[2 + i]);
                i += 1;
            }
            let m = Message::ReStatus(buff);
            proof {
                assert(spec_encode(m) =~= bytes@.subrange(0, 2 + len as int));
            }
            Ok(Some(m))
        } else if d == TAG_RE_ERR_NO_ID {
            proof {
                assert(spec_encode(Message::ReErrNoID).is_prefix_of(bytes@));
            }
            Ok(Some(Message::ReErrNoID))
        } else if d == TAG_RE_ERR_IDIOT {
            proof {
                assert(spec_encode(Message::ReErrIdiot).is_prefix_of(bytes@));
            }
            Ok(Some(Message::ReErrIdiot))
        } else if d == TAG_RE_ERR_UNKWN {
            proof {
                assert(spec_encode(Message::ReErrUnkwn).is_prefix_of(bytes@));
            }
            Ok(Some(Message::ReErrUnkwn))
        } else {
            Ok(None)
        }
    }
}

/// True when `bytes` already holds one whole frame. A reader feeding bytes
/// in from a stream keeps reading until this holds, then decodes.
pub fn is_frame_complete(bytes: &[u8]) -> (r: bool)
    ensures
        r == frame_complete(bytes@),
{
    if bytes.len() == 0 {
        return false;
    }
    let d = bytes[0];
    if d == TAG_SET_ID {
        bytes.len() >= 2
    } else if d == TAG_RE_STATUS {
        if bytes.len() < 2 {
            false
        } else {
            bytes.len() >= 2 + (bytes[1] as usize)
        }
    } else {
        true
    }
}

/// Law: the encoding pins the message. Whenever one well-formed message's
/// encoding is a prefix of another's, the two carry the same content; with
/// `Message::read`'s contract this gives the round trip, `read` of
/// `as_raw_bytes` of `m` yielding `m` itself.
pub proof fn lemma_encode_injective(m1: Message, m2: Message)
    requires
        m1.wf(),
        m2.wf(),
        spec_encode(m1).is_prefix_of(spec_encode(m2)),
    ensures
        same_message(m1, m2),
{
    let s1 = spec_encode(m1);
    let s2 = spec_encode(m2);
    assert(s1[0] == s2[0]);
    match (m1, m2) {
        (Message::ReStatus(a), Message::ReStatus(b)) => {
            assert(s1[1] == a@.len() as u8);
            assert(s2[1] == b@.len() as u8);
            assert(a@.len() == b@.len());
            assert(forall|k: int|
                0 <= k < a@.len() ==> a@[k] == s1[k + 2] && b@[k] == s2[k + 2]);
            assert(a@ =~= b@);
        },
        _ => {},
    }
}

/// Law: the round trip closes. On input `as_raw_bytes(m)` — whose view is
/// `spec_encode(m)` — `read` returns a message with the same content as `m`.
pub proof fn lemma_read_round_trip(m: Message, r: Result<Option<Message>, DecodeError>)
    requires
        m.wf(),
        read_post(spec_encode(m), r),
    ensures
        r matches Ok(Some(m2)) && same_message(m2, m) && same_message(m, m2),
{
    let bytes = spec_encode(m);
    assert(frame_complete(bytes));
    assert(tag_known(bytes[0]));
    match r {
        Ok(Some(m2)) => {
            lemma_encode_injective(m2, m);
        },
        _ => {
            assert(false);
        },
    }
}

} // verus!
