//! The frame codec: a frame is the length of its payload, as eight bytes
//! with the lowest first, and then the payload.

use vstd::bytes::{
    lemma_auto_spec_u64_to_from_le_bytes, spec_u64_from_le_bytes, spec_u64_to_le_bytes,
    spec_u64_to_le_bytes_to_open, u64_from_le_bytes, u64_to_le_bytes,
};
use vstd::prelude::*;
use vstd::slice::{slice_subrange, slice_to_vec};

verus! {

/// The number of bytes of a frame's length field.
pub const HEADER_LEN: usize = 8;

/// The frame that carries `payload`.
pub open spec fn frame_of(payload: Seq<u8>) -> Seq<u8> {
    spec_u64_to_le_bytes(payload.len() as u64) + payload
}

/// The length that the first eight bytes of `bytes` declare.
pub open spec fn declared_len(bytes: Seq<u8>) -> nat {
    spec_u64_from_le_bytes(bytes.subrange(0, HEADER_LEN as int)) as nat
}

/// The payload of the frame at the start of `bytes`. There is none where
/// `bytes` is shorter than a length field, or shorter than the length that
/// it declares; what follows the frame is not looked at.
pub open spec fn payload_of(bytes: Seq<u8>) -> Option<Seq<u8>> {
    if bytes.len() >= HEADER_LEN && declared_len(bytes) <= bytes.len() - HEADER_LEN {
        Some(bytes.subrange(HEADER_LEN as int, HEADER_LEN + declared_len(bytes)))
    } else {
        None
    }
}

/// One payload, ready to be framed.
#[derive(Debug, PartialEq, Eq)]
pub struct SerializedDataContainer {
    size: usize,
    data: Vec<u8>,
}

impl View for SerializedDataContainer {
    type V = Seq<u8>;

    closed spec fn view(&self) -> Seq<u8> {
        self.data@
    }
}

/// The view of an optional container.
pub open spec fn opt_payload(container: Option<SerializedDataContainer>) -> Option<Seq<u8>> {
    match container {
        Some(container) => Some(container@),
        None => None,
    }
}

impl SerializedDataContainer {
    #[verifier::type_invariant]
    spec fn size_is_len(&self) -> bool {
        self.size == self.data.len()
    }

    /// A container for the payload `v`.
    pub fn new(v: &[u8]) -> (container: Self)
        ensures
            container@ == v@,
    {
        Self { size: v.len(), data: slice_to_vec(v) }
    }

    /// The payload.
    pub fn payload(&self) -> (data: &[u8])
        ensures
            data@ == self@,
    {
        self.data.as_slice()
    }

    /// The frame: the length field, then the payload.
    pub fn to_one_vec(&self) -> (frame: Vec<u8>)
        ensures
            frame@ == frame_of(self@),
    {
        proof {
            use_type_invariant(self);
        }
        let mut frame = u64_to_le_bytes(self.size as u64);
        let mut i: usize = 0;
        while i < self.data.len()
            invariant
                i <= self.data.len(),
                frame@ == spec_u64_to_le_bytes(self.data.len() as u64) + self.data@.take(i as int),
            decreases self.data.len() - i,
        {
            frame.push(self.data[i]);
            proof {
                assert(self.data@.take(i + 1) == self.data@.take(i as int).push(
                    self.data@[i as int],
                ));
            }
            i += 1;
        }
        proof {
            assert(self.data@.take(i as int) == self.data@);
        }
        frame
    }

    /// Takes the frame at the start of `v` apart.
    pub fn from_one_vec(v: Vec<u8>) -> (container: Option<Self>)
        ensures
            opt_payload(container) == payload_of(v@),
    {
        if v.len() < HEADER_LEN {
            return None;
        }
        let declared = u64_from_le_bytes(slice_subrange(v.as_slice(), 0, HEADER_LEN));
        if declared > (v.len() - HEADER_LEN) as u64 {
            return None;
        }
        let size = declared as usize;
        let data = slice_to_vec(slice_subrange(v.as_slice(), HEADER_LEN, HEADER_LEN + size));
        Some(Self { size, data })
    }

    /// The number of payload bytes that the length field `header` declares,
    /// as far as this machine can hold so many: the number of bytes to read
    /// after the length field.
    pub fn payload_len(header: &[u8]) -> (len: Option<usize>)
        ensures
            len == if header@.len() == HEADER_LEN && declared_len(header@) <= usize::MAX {
                Some(declared_len(header@) as usize)
            } else {
                None
            },
    {
        if header.len() != HEADER_LEN {
            return None;
        }
        proof {
            assert(header@.subrange(0, HEADER_LEN as int) == header@);
        }
        let declared = u64_from_le_bytes(header);
        if declared > usize::MAX as u64 {
            None
        } else {
            Some(declared as usize)
        }
    }

    /// Puts together what was read from a stream: the length field and the
    /// bytes that followed it. A payload of another length than the declared
    /// one is no frame.
    pub fn from_parts(header: &[u8], payload: Vec<u8>) -> (container: Option<Self>)
        ensures
            opt_payload(container) == if header@.len() == HEADER_LEN && declared_len(header@)
                == payload@.len() {
                Some(payload@)
            } else {
                None
            },
    {
        if header.len() != HEADER_LEN {
            return None;
        }
        proof {
            assert(header@.subrange(0, HEADER_LEN as int) == header@);
        }
        let declared = u64_from_le_bytes(header);
        if declared != payload.len() as u64 {
            return None;
        }
        Some(Self { size: payload.len(), data: payload })
    }
}

/// A frame is eight bytes longer than its payload, and taking it apart
/// gives the payload back, whatever follows the frame.
pub proof fn lemma_frame_round_trip(payload: Seq<u8>, rest: Seq<u8>)
    requires
        payload.len() <= u64::MAX,
    ensures
        frame_of(payload).len() == HEADER_LEN + payload.len(),
        declared_len(frame_of(payload) + rest) == payload.len(),
        payload_of(frame_of(payload) + rest) == Some(payload),
        payload_of(frame_of(payload)) == Some(payload),
{
    lemma_auto_spec_u64_to_from_le_bytes();
    let header = spec_u64_to_le_bytes(payload.len() as u64);
    let bytes = frame_of(payload) + rest;
    assert(bytes.subrange(0, HEADER_LEN as int) == header);
    assert(bytes.subrange(HEADER_LEN as int, HEADER_LEN + payload.len()) == payload);
    assert(frame_of(payload) + Seq::<u8>::empty() == frame_of(payload));
    let alone = frame_of(payload);
    assert(alone.subrange(0, HEADER_LEN as int) == header);
    assert(alone.subrange(HEADER_LEN as int, HEADER_LEN + payload.len()) == payload);
}

/// Two frames behind each other come apart in order: the first payload is
/// found at the start, the second behind the first frame.
pub proof fn lemma_frames_in_sequence(first: Seq<u8>, second: Seq<u8>)
    requires
        first.len() <= u64::MAX,
        second.len() <= u64::MAX,
    ensures
        payload_of(frame_of(first) + frame_of(second)) == Some(first),
        payload_of((frame_of(first) + frame_of(second)).skip(HEADER_LEN + first.len())) == Some(
            second,
        ),
{
    lemma_frame_round_trip(first, frame_of(second));
    lemma_frame_round_trip(second, Seq::empty());
    assert((frame_of(first) + frame_of(second)).skip(HEADER_LEN + first.len()) == frame_of(
        second,
    ));
}

/// Frames with equal bytes carry equal payloads.
pub proof fn lemma_frame_is_injective(first: Seq<u8>, second: Seq<u8>)
    requires
        first.len() <= u64::MAX,
        second.len() <= u64::MAX,
        frame_of(first) == frame_of(second),
    ensures
        first == second,
{
    lemma_frame_round_trip(first, Seq::empty());
    lemma_frame_round_trip(second, Seq::empty());
}

/// The length field holds the payload's length with the lowest byte first.
pub proof fn lemma_header_is_little_endian(payload: Seq<u8>)
    requires
        payload.len() <= u64::MAX,
    ensures
        ({
            let len = payload.len() as u64;
            let frame = frame_of(payload);
            &&& frame[0] == (len & 0xff) as u8
            &&& frame[1] == ((len >> 8) & 0xff) as u8
            &&& frame[2] == ((len >> 16) & 0xff) as u8
            &&& frame[3] == ((len >> 24) & 0xff) as u8
            &&& frame[4] == ((len >> 32) & 0xff) as u8
            &&& frame[5] == ((len >> 40) & 0xff) as u8
            &&& frame[6] == ((len >> 48) & 0xff) as u8
            &&& frame[7] == ((len >> 56) & 0xff) as u8
            &&& forall|i: int| 0 <= i < payload.len() ==> frame[HEADER_LEN + i] == payload[i]
        }),
{
    spec_u64_to_le_bytes_to_open(payload.len() as u64);
    lemma_auto_spec_u64_to_from_le_bytes();
}

} // verus!
