//! A decoder for the fixed-layout binary records of the vision pipeline.
//!
//! A record is read from a byte string front to back, with an explicit
//! position and a check of the remaining length before every read. Every
//! number is little-endian. An unsigned number is read as the signed number
//! of the same width and keeps its bits.

use vstd::prelude::*;

pub mod builtin;
pub mod records;

pub use records::DetectedObject;
pub use records::FiducialId;
pub use records::MultiTargetPNP;
pub use records::PNPResult;
pub use records::PhotonPipelineMetadata;
pub use records::PhotonRes;
pub use records::PhotonTrackedTarget;
pub use records::Pose2d;
pub use records::Quaternion;
pub use records::Rotate2d;
pub use records::TargetCorner;
pub use records::TargetTransforms;
pub use records::Transform3D;
pub use records::Translate2d;
pub use records::Translate3D;

verus! {

/// Why decoding failed.
#[derive(Debug, Clone, Copy, PartialEq, Eq, Structural)]
pub enum DeserializeError {
    /// The bytes ran out before the value was complete.
    UnexpectedEnd,
}

/// A position in a byte string.
pub struct Cursor<'a> {
    data: &'a [u8],
    position: usize,
}

/// The number that `count` bytes from `pos` on hold, the first byte the
/// least.
pub open spec fn le_value(data: Seq<u8>, pos: nat, count: nat) -> nat
    decreases count,
{
    if count == 0 {
        0
    } else {
        data[pos as int] as nat + 256 * le_value(data, pos + 1, (count - 1) as nat)
    }
}

/// Whether `count` bytes are left from `pos` on.
pub open spec fn has_bytes(data: Seq<u8>, pos: nat, count: nat) -> bool {
    pos + count <= data.len()
}

/// The signed number of `bits` bits with the bits of `value`.
pub open spec fn as_signed(value: nat, half: nat) -> int {
    if value >= half {
        value - 2 * half
    } else {
        value as int
    }
}

impl<'a> Cursor<'a> {
    /// The bytes.
    pub closed spec fn bytes(&self) -> Seq<u8> {
        self.data@
    }

    /// The position of the next byte to read.
    pub closed spec fn pos(&self) -> nat {
        self.position as nat
    }

    #[verifier::type_invariant]
    spec fn within(self) -> bool {
        self.position <= self.data@.len()
    }

    /// A cursor at the start of `data`.
    pub fn new(data: &'a [u8]) -> (c: Cursor<'a>)
        ensures
            c.bytes() == data@,
            c.pos() == 0,
    {
        Cursor { data, position: 0 }
    }

    /// The position of the next byte to read.
    pub fn position(&self) -> (r: usize)
        ensures
            r == self.pos(),
    {
        self.position
    }

    /// The number of bytes that are left.
    pub fn remaining(&self) -> (r: usize)
        ensures
            r == self.bytes().len() - self.pos(),
            self.pos() <= self.bytes().len(),
    {
        proof {
            use_type_invariant(self);
        }
        self.data.len() - self.position
    }

    /// Reads one byte.
    ///
    /// Fails, and stays where it is, exactly if no byte is left.
    pub fn read_u8(&mut self) -> (r: Result<u8, DeserializeError>)
        ensures
            final(self).bytes() == old(self).bytes(),
            r is Ok <==> has_bytes(old(self).bytes(), old(self).pos(), 1),
            r matches Ok(v) ==> {
                &&& v == le_value(old(self).bytes(), old(self).pos(), 1)
                &&& final(self).pos() == old(self).pos() + 1
            },
            r is Err ==> final(self).pos() == old(self).pos(),
    {
        proof {
            use_type_invariant(&*self);
        }
        if self.data.len() - self.position < 1 {
            return Err(DeserializeError::UnexpectedEnd);
        }
        let b0 = self.data[self.position];
        self.position += 1;
        proof {
            reveal_with_fuel(le_value, 2);
        }
        Ok(b0)
    }

    /// Reads a number of two bytes.
    ///
    /// Fails, and stays where it is, exactly if fewer than two bytes are
    /// left.
    pub fn read_u16(&mut self) -> (r: Result<u16, DeserializeError>)
        ensures
            final(self).bytes() == old(self).bytes(),
            r is Ok <==> has_bytes(old(self).bytes(), old(self).pos(), 2),
            r matches Ok(v) ==> {
                &&& v == le_value(old(self).bytes(), old(self).pos(), 2)
                &&& final(self).pos() == old(self).pos() + 2
            },
            r is Err ==> final(self).pos() == old(self).pos(),
    {
        proof {
            use_type_invariant(&*self);
        }
        if self.data.len() - self.position < 2 {
            return Err(DeserializeError::UnexpectedEnd);
        }
        let b0: u16 = self.data[self.position] as u16;
        let b1: u16 = self.data[self.position + 1] as u16;
        self.position += 2;
        proof {
            reveal_with_fuel(le_value, 3);
        }
        Ok(b0 + 256 * b1)
    }

    /// Reads a number of four bytes.
    ///
    /// Fails, and stays where it is, exactly if fewer than four bytes are
    /// left.
    pub fn read_u32(&mut self) -> (r: Result<u32, DeserializeError>)
        ensures
            final(self).bytes() == old(self).bytes(),
            r is Ok <==> has_bytes(old(self).bytes(), old(self).pos(), 4),
            r matches Ok(v) ==> {
                &&& v == le_value(old(self).bytes(), old(self).pos(), 4)
                &&& final(self).pos() == old(self).pos() + 4
            },
            r is Err ==> final(self).pos() == old(self).pos(),
    {
        proof {
            use_type_invariant(&*self);
        }
        if self.data.len() - self.position < 4 {
            return Err(DeserializeError::UnexpectedEnd);
        }
        let b0: u32 = self.data[self.position] as u32;
        let b1: u32 = self.data[self.position + 1] as u32;
        let b2: u32 = self.data[self.position + 2] as u32;
        let b3: u32 = self.data[self.position + 3] as u32;
        self.position += 4;
        proof {
            reveal_with_fuel(le_value, 5);
        }
        Ok(b0 + 256 * (b1 + 256 * (b2 + 256 * b3)))
    }

    /// Reads a number of eight bytes.
    ///
    /// Fails, and stays where it is, exactly if fewer than eight bytes are
    /// left.
    pub fn read_u64(&mut self) -> (r: Result<u64, DeserializeError>)
        ensures
            final(self).bytes() == old(self).bytes(),
            r is Ok <==> has_bytes(old(self).bytes(), old(self).pos(), 8),
            r matches Ok(v) ==> {
                &&& v == le_value(old(self).bytes(), old(self).pos(), 8)
                &&& final(self).pos() == old(self).pos() + 8
            },
            r is Err ==> final(self).pos() == old(self).pos(),
    {
        proof {
            use_type_invariant(&*self);
        }
        if self.data.len() - self.position < 8 {
            return Err(DeserializeError::UnexpectedEnd);
        }
        let b0: u64 = self.data[self.position] as u64;
        let b1: u64 = self.data[self.position + 1] as u64;
        let b2: u64 = self.data[self.position + 2] as u64;
        let b3: u64 = self.data[self.position + 3] as u64;
        let b4: u64 = self.data[self.position + 4] as u64;
        let b5: u64 = self.data[self.position + 5] as u64;
        let b6: u64 = self.data[self.position + 6] as u64;
        let b7: u64 = self.data[self.position + 7] as u64;
        self.position += 8;
        proof {
            reveal_with_fuel(le_value, 9);
        }
        let high: u64 = b4 + 256 * (b5 + 256 * (b6 + 256 * b7));
        Ok(b0 + 256 * (b1 + 256 * (b2 + 256 * (b3 + 256 * high))))
    }
}

/// A value that can be decoded from bytes.
pub trait Deserialize: Sized + DeepView {
    /// What the bytes of `data` from `pos` on decode to, with the position
    /// after the value; nothing where the bytes run out before the value is
    /// complete.
    spec fn decoded(data: Seq<u8>, pos: nat) -> Option<(Self::V, nat)>;

    /// Decodes a value at the cursor and moves the cursor past it.
    ///
    /// Fails exactly if the bytes run out before the value is complete.
    fn deserialize(data: &mut Cursor) -> (r: Result<Self, DeserializeError>)
        ensures
            final(data).bytes() == old(data).bytes(),
            r is Ok <==> Self::decoded(old(data).bytes(), old(data).pos()) is Some,
            r matches Ok(v) ==> Self::decoded(old(data).bytes(), old(data).pos()) == Some(
                (v.deep_view(), final(data).pos()),
            ),
    ;
}

/// What a field decodes to that starts at `pos`, where the field before it
/// ended; nothing if that one was incomplete already.
pub open spec fn field<T: Deserialize>(data: Seq<u8>, pos: Option<nat>) -> Option<(T::V, nat)> {
    match pos {
        Some(p) => T::decoded(data, p),
        None => None,
    }
}

/// Where a field ended, if it was complete.
pub open spec fn end_of<V>(field: Option<(V, nat)>) -> Option<nat> {
    match field {
        Some((_, p)) => Some(p),
        None => None,
    }
}

/// Decodes a value from the start of `data`.
///
/// Fails exactly if the bytes run out before the value is complete. Bytes
/// after the value are ignored.
pub fn deserialize<D: Deserialize>(data: &[u8]) -> (r: Result<D, DeserializeError>)
    ensures
        r is Ok <==> D::decoded(data@, 0) is Some,
        r matches Ok(v) ==> D::decoded(data@, 0) matches Some(d) && d.0 == v.deep_view(),
{
    let mut cursor = Cursor::new(data);
    D::deserialize(&mut cursor)
}

} // verus!
