//! Length-prefixed frames.

use crate::bytes::{append_be, from_be, read_be, to_be};
use crate::error::ProtocolError;
use vstd::prelude::*;

verus! {

/// Number of bytes in the big-endian frame-length prefix.
pub const LENGTH_PREFIX_SIZE: usize = 4;

/// Maximum permitted payload size (16 MiB).
pub const MAX_FRAME_SIZE: usize = 16 * 1024 * 1024;

/// Accepts a payload size within the limit.
pub fn ensure_frame_size(size: usize) -> (result: Result<(), ProtocolError>)
    ensures
        match result {
            Ok(_) => size <= MAX_FRAME_SIZE,
            Err(error) => size > MAX_FRAME_SIZE && error == (ProtocolError::FrameTooLarge {
                size,
                maximum: MAX_FRAME_SIZE,
            }),
        },
{
    if size > MAX_FRAME_SIZE {
        Err(ProtocolError::FrameTooLarge { size, maximum: MAX_FRAME_SIZE })
    } else {
        Ok(())
    }
}

/// The length prefix of a payload.
pub fn frame_length(size: usize) -> (result: Result<u32, ProtocolError>)
    ensures
        match result {
            Ok(length) => size <= MAX_FRAME_SIZE && length == size,
            Err(error) => size > MAX_FRAME_SIZE && error == (ProtocolError::FrameTooLarge {
                size,
                maximum: MAX_FRAME_SIZE,
            }),
        },
{
    match ensure_frame_size(size) {
        Ok(_) => Ok(size as u32),
        Err(error) => Err(error),
    }
}

/// The frame of a payload: its length, then the payload.
pub open spec fn frame_of(payload: Seq<u8>) -> Seq<u8> {
    to_be(payload.len(), LENGTH_PREFIX_SIZE as nat) + payload
}

/// The length that a frame declares.
pub open spec fn declared_length(frame: Seq<u8>) -> nat {
    from_be(frame.take(LENGTH_PREFIX_SIZE as int))
}

/// Puts the length of a payload before it.
pub fn encode_frame(payload: &[u8]) -> (result: Result<Vec<u8>, ProtocolError>)
    ensures
        match result {
            Ok(frame) => payload@.len() <= MAX_FRAME_SIZE && frame@ == frame_of(payload@),
            Err(error) => payload@.len() > MAX_FRAME_SIZE && error == (
            ProtocolError::FrameTooLarge {
                size: payload@.len() as usize,
                maximum: MAX_FRAME_SIZE,
            }),
        },
{
    let length: u32 = match frame_length(payload.len()) {
        Ok(length) => length,
        Err(error) => {
            return Err(error);
        },
    };
    let mut frame: Vec<u8> = Vec::new();
    append_be(&mut frame, length as u128, LENGTH_PREFIX_SIZE);
    frame.extend_from_slice(payload);
    assert(frame@ =~= frame_of(payload@));
    Ok(frame)
}

/// The payload of one complete frame.
pub fn decode_frame(frame: &[u8]) -> (result: Result<Vec<u8>, ProtocolError>)
    ensures
        ({
            let whole = frame@.len() >= LENGTH_PREFIX_SIZE;
            let declared = declared_length(frame@);
            let received = frame@.len() - LENGTH_PREFIX_SIZE;
            match result {
                Ok(payload) => {
                    &&& whole && declared <= MAX_FRAME_SIZE && received == declared
                    &&& payload@ == frame@.skip(LENGTH_PREFIX_SIZE as int)
                },
                Err(ProtocolError::TruncatedLengthPrefix { received: r }) => !whole && r
                    == frame@.len(),
                Err(ProtocolError::FrameTooLarge { size, maximum }) => {
                    &&& whole && declared > MAX_FRAME_SIZE
                    &&& size == declared && maximum == MAX_FRAME_SIZE
                },
                Err(ProtocolError::TruncatedFrame { expected, received: r }) => {
                    &&& whole && declared <= MAX_FRAME_SIZE && received < declared
                    &&& expected == declared && r == received
                },
                Err(ProtocolError::TrailingFrameData { extra }) => {
                    &&& whole && declared <= MAX_FRAME_SIZE && received > declared
                    &&& extra == received - declared
                },
                Err(_) => false,
            }
        }),
{
    if frame.len() < LENGTH_PREFIX_SIZE {
        return Err(ProtocolError::TruncatedLengthPrefix { received: frame.len() });
    }
    let prefix = vstd::slice::slice_subrange(frame, 0, LENGTH_PREFIX_SIZE);
    assert(prefix@ =~= frame@.take(LENGTH_PREFIX_SIZE as int));
    proof {
        crate::bytes::lemma_widths(prefix@);
    }
    let length: usize = read_be(prefix) as usize;
    if let Err(error) = ensure_frame_size(length) {
        return Err(error);
    }
    let received: usize = frame.len() - LENGTH_PREFIX_SIZE;
    if received < length {
        return Err(ProtocolError::TruncatedFrame { expected: length, received });
    }
    if received > length {
        return Err(ProtocolError::TrailingFrameData { extra: received - length });
    }
    let payload = vstd::slice::slice_subrange(frame, LENGTH_PREFIX_SIZE, frame.len());
    assert(payload@ =~= frame@.skip(LENGTH_PREFIX_SIZE as int));
    let mut copy: Vec<u8> = Vec::new();
    copy.extend_from_slice(payload);
    assert(copy@ =~= payload@);
    Ok(copy)
}

/// Requires that a decoder took the whole payload.
pub fn ensure_consumed(consumed: usize, total: usize) -> (result: Result<(), ProtocolError>)
    requires
        consumed <= total,
    ensures
        match result {
            Ok(_) => consumed == total,
            Err(error) => consumed < total && error == (ProtocolError::TrailingCborData {
                remaining: (total - consumed) as usize,
            }),
        },
{
    if consumed != total {
        Err(ProtocolError::TrailingCborData { remaining: total - consumed })
    } else {
        Ok(())
    }
}

/// What encoding a payload gives decodes to the payload.
pub proof fn law_frame_roundtrip(payload: Seq<u8>)
    requires
        payload.len() <= MAX_FRAME_SIZE,
    ensures
        frame_of(payload).len() == LENGTH_PREFIX_SIZE + payload.len(),
        declared_length(frame_of(payload)) == payload.len(),
        frame_of(payload).skip(LENGTH_PREFIX_SIZE as int) == payload,
{
    crate::bytes::lemma_to_be_len(payload.len(), LENGTH_PREFIX_SIZE as nat);
    crate::bytes::law_u32_roundtrip(payload.len() as u32);
    let frame = frame_of(payload);
    assert(frame.take(LENGTH_PREFIX_SIZE as int) =~= to_be(
        payload.len(),
        LENGTH_PREFIX_SIZE as nat,
    ));
    assert(frame.skip(LENGTH_PREFIX_SIZE as int) =~= payload);
}

/// Only the encoding of a payload decodes to it.
pub proof fn law_frames_are_unique(frame: Seq<u8>)
    requires
        frame.len() >= LENGTH_PREFIX_SIZE,
        declared_length(frame) == frame.len() - LENGTH_PREFIX_SIZE,
    ensures
        frame == frame_of(frame.skip(LENGTH_PREFIX_SIZE as int)),
{
    let prefix = frame.take(LENGTH_PREFIX_SIZE as int);
    crate::bytes::law_to_be_of_from_be(prefix);
    assert(frame =~= prefix + frame.skip(LENGTH_PREFIX_SIZE as int));
}

/// A frame that is being read from a stream.
pub struct FrameReader {
    maximum: usize,
    prefix: Vec<u8>,
    length: usize,
    payload: Vec<u8>,
}

impl FrameReader {
    /// The largest payload that is accepted.
    pub closed spec fn spec_maximum(&self) -> usize {
        self.maximum
    }

    /// The bytes read so far.
    pub closed spec fn content(&self) -> Seq<u8> {
        self.prefix@ + self.payload@
    }

    pub closed spec fn wf(&self) -> bool {
        &&& self.maximum <= MAX_FRAME_SIZE
        &&& self.prefix@.len() <= LENGTH_PREFIX_SIZE
        &&& self.prefix@.len() < LENGTH_PREFIX_SIZE ==> self.payload@.len() == 0
        &&& self.prefix@.len() == LENGTH_PREFIX_SIZE ==> {
            &&& self.length == from_be(self.prefix@)
            &&& self.length <= self.maximum
            &&& self.payload@.len() <= self.length
        }
    }

    /// How many bytes to ask for next; zero once the frame has been read. No
    /// payload is asked for before its length is known to be acceptable.
    pub open spec fn spec_wanted(&self) -> int {
        if self.content().len() < LENGTH_PREFIX_SIZE {
            LENGTH_PREFIX_SIZE - self.content().len()
        } else {
            LENGTH_PREFIX_SIZE + declared_length(self.content()) - self.content().len()
        }
    }

    proof fn lemma_content(&self)
        requires
            self.wf(),
        ensures
            self.prefix@.len() < LENGTH_PREFIX_SIZE ==> self.content() == self.prefix@,
            self.prefix@.len() == LENGTH_PREFIX_SIZE ==> self.content().take(
                LENGTH_PREFIX_SIZE as int,
            ) == self.prefix@,
    {
        assert(self.prefix@.len() < LENGTH_PREFIX_SIZE ==> self.content() =~= self.prefix@);
        assert(self.prefix@.len() == LENGTH_PREFIX_SIZE ==> self.content().take(
            LENGTH_PREFIX_SIZE as int,
        ) =~= self.prefix@);
    }

    /// A reader that accepts payloads up to a limit, which is never more than
    /// the limit for all.
    pub fn new(maximum: usize) -> (reader: Self)
        ensures
            reader.wf(),
            reader.content() == Seq::<u8>::empty(),
            reader.spec_maximum() == if maximum < MAX_FRAME_SIZE {
                maximum
            } else {
                MAX_FRAME_SIZE
            },
    {
        let maximum: usize = if maximum < MAX_FRAME_SIZE {
            maximum
        } else {
            MAX_FRAME_SIZE
        };
        let reader = FrameReader { maximum, prefix: Vec::new(), length: 0, payload: Vec::new() };
        assert(reader.content() =~= Seq::<u8>::empty());
        reader
    }

    pub fn wanted(&self) -> (bytes: usize)
        requires
            self.wf(),
        ensures
            bytes == self.spec_wanted(),
    {
        proof {
            self.lemma_content();
        }
        if self.prefix.len() < LENGTH_PREFIX_SIZE {
            LENGTH_PREFIX_SIZE - self.prefix.len()
        } else {
            self.length - self.payload.len()
        }
    }

    /// Takes what was read; nothing read means that the stream has ended.
    pub fn absorb(&mut self, block: &[u8]) -> (result: Result<(), ProtocolError>)
        requires
            old(self).wf(),
            old(self).spec_wanted() > 0,
            block@.len() <= old(self).spec_wanted(),
        ensures
            final(self).spec_maximum() == old(self).spec_maximum(),
            ({
                let before = old(self).content();
                let after = before + block@;
                let known = before.len() >= LENGTH_PREFIX_SIZE;
                match result {
                    Ok(_) => {
                        &&& block@.len() > 0
                        &&& final(self).wf()
                        &&& final(self).content() == after
                        &&& after.len() >= LENGTH_PREFIX_SIZE ==> declared_length(after)
                            <= old(self).spec_maximum()
                    },
                    Err(ProtocolError::TruncatedLengthPrefix { received }) => {
                        &&& block@.len() == 0 && !known
                        &&& received == before.len()
                    },
                    Err(ProtocolError::TruncatedFrame { expected, received }) => {
                        &&& block@.len() == 0 && known
                        &&& expected == declared_length(before)
                        &&& received == before.len() - LENGTH_PREFIX_SIZE
                    },
                    Err(ProtocolError::FrameTooLarge { size, maximum }) => {
                        &&& block@.len() > 0 && !known && after.len() == LENGTH_PREFIX_SIZE
                        &&& declared_length(after) > old(self).spec_maximum()
                        &&& size == declared_length(after)
                        &&& maximum == old(self).spec_maximum()
                    },
                    Err(_) => false,
                }
            }),
    {
        proof {
            self.lemma_content();
        }
        let ghost before = self.content();
        if self.prefix.len() < LENGTH_PREFIX_SIZE {
            if block.len() == 0 {
                return Err(ProtocolError::TruncatedLengthPrefix { received: self.prefix.len() });
            }
            self.prefix.extend_from_slice(block);
            assert(self.prefix@ =~= before + block@);
            assert(self.content() =~= before + block@);
            if self.prefix.len() == LENGTH_PREFIX_SIZE {
                proof {
                    crate::bytes::lemma_widths(self.prefix@);
                    assert((before + block@).take(LENGTH_PREFIX_SIZE as int) =~= self.prefix@);
                }
                self.length = read_be(&self.prefix) as usize;
                if self.length > self.maximum {
                    return Err(
                        ProtocolError::FrameTooLarge {
                            size: self.length,
                            maximum: self.maximum,
                        },
                    );
                }
            }
            Ok(())
        } else {
            if block.len() == 0 {
                return Err(
                    ProtocolError::TruncatedFrame {
                        expected: self.length,
                        received: self.payload.len(),
                    },
                );
            }
            self.payload.extend_from_slice(block);
            assert(self.content() =~= before + block@);
            assert((before + block@).take(LENGTH_PREFIX_SIZE as int) =~= self.prefix@);
            Ok(())
        }
    }

    /// The payload of a frame that has been read.
    pub fn finish(self) -> (payload: Vec<u8>)
        requires
            self.wf(),
            self.spec_wanted() == 0,
        ensures
            self.content() == frame_of(payload@),
            payload@.len() <= self.spec_maximum(),
    {
        proof {
            self.lemma_content();
            crate::bytes::law_to_be_of_from_be(self.prefix@);
            assert(self.content() =~= frame_of(self.payload@));
        }
        self.payload
    }
}

/// A reader never asks for more than belongs to the frame that it is reading, asks for
/// something until it has all of it, and once it has the length, for exactly the rest.
pub proof fn law_readers_stop_at_the_end(reader: &FrameReader, payload: Seq<u8>)
    requires
        payload.len() <= MAX_FRAME_SIZE,
        reader.content().len() <= frame_of(payload).len(),
        reader.content() == frame_of(payload).take(reader.content().len() as int),
    ensures
        reader.content().len() + reader.spec_wanted() <= frame_of(payload).len(),
        reader.spec_wanted() > 0 <==> reader.content().len() < frame_of(payload).len()
            || reader.content().len() < LENGTH_PREFIX_SIZE,
        reader.content().len() >= LENGTH_PREFIX_SIZE ==> reader.content().len()
            + reader.spec_wanted() == frame_of(payload).len(),
{
    let whole = frame_of(payload);
    let content = reader.content();
    law_frame_roundtrip(payload);
    if content.len() >= LENGTH_PREFIX_SIZE {
        assert(content.take(LENGTH_PREFIX_SIZE as int) =~= whole.take(LENGTH_PREFIX_SIZE as int));
    }
}

} // verus!
