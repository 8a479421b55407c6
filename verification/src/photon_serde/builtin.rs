//! Decoding numbers, flags, optional values and lists.

use vstd::prelude::*;
use super::as_signed;
use super::has_bytes;
use super::le_value;
use super::Cursor;
use super::Deserialize;
use super::DeserializeError;

verus! {

impl Deserialize for u8 {
    open spec fn decoded(data: Seq<u8>, pos: nat) -> Option<(u8, nat)> {
        if has_bytes(data, pos, 1) {
            Some((le_value(data, pos, 1) as u8, pos + 1))
        } else {
            None
        }
    }

    fn deserialize(data: &mut Cursor) -> (r: Result<u8, DeserializeError>) {
        data.read_u8()
    }
}

impl Deserialize for u16 {
    open spec fn decoded(data: Seq<u8>, pos: nat) -> Option<(u16, nat)> {
        if has_bytes(data, pos, 2) {
            Some((le_value(data, pos, 2) as u16, pos + 2))
        } else {
            None
        }
    }

    fn deserialize(data: &mut Cursor) -> (r: Result<u16, DeserializeError>) {
        data.read_u16()
    }
}

impl Deserialize for u32 {
    open spec fn decoded(data: Seq<u8>, pos: nat) -> Option<(u32, nat)> {
        if has_bytes(data, pos, 4) {
            Some((le_value(data, pos, 4) as u32, pos + 4))
        } else {
            None
        }
    }

    fn deserialize(data: &mut Cursor) -> (r: Result<u32, DeserializeError>) {
        data.read_u32()
    }
}

impl Deserialize for u64 {
    open spec fn decoded(data: Seq<u8>, pos: nat) -> Option<(u64, nat)> {
        if has_bytes(data, pos, 8) {
            Some((le_value(data, pos, 8) as u64, pos + 8))
        } else {
            None
        }
    }

    fn deserialize(data: &mut Cursor) -> (r: Result<u64, DeserializeError>) {
        data.read_u64()
    }
}

impl Deserialize for i8 {
    open spec fn decoded(data: Seq<u8>, pos: nat) -> Option<(i8, nat)> {
        if has_bytes(data, pos, 1) {
            Some((as_signed(le_value(data, pos, 1), 0x80) as i8, pos + 1))
        } else {
            None
        }
    }

    fn deserialize(data: &mut Cursor) -> (r: Result<i8, DeserializeError>) {
        let v = data.read_u8()?;
        if v < 0x80 {
            Ok(v as i8)
        } else {
            Ok((v - 0x80) as i8 + i8::MIN)
        }
    }
}

impl Deserialize for i16 {
    open spec fn decoded(data: Seq<u8>, pos: nat) -> Option<(i16, nat)> {
        if has_bytes(data, pos, 2) {
            Some((as_signed(le_value(data, pos, 2), 0x8000) as i16, pos + 2))
        } else {
            None
        }
    }

    fn deserialize(data: &mut Cursor) -> (r: Result<i16, DeserializeError>) {
        let v = data.read_u16()?;
        if v < 0x8000 {
            Ok(v as i16)
        } else {
            Ok((v - 0x8000) as i16 + i16::MIN)
        }
    }
}

impl Deserialize for i32 {
    open spec fn decoded(data: Seq<u8>, pos: nat) -> Option<(i32, nat)> {
        if has_bytes(data, pos, 4) {
            Some((as_signed(le_value(data, pos, 4), 0x8000_0000) as i32, pos + 4))
        } else {
            None
        }
    }

    fn deserialize(data: &mut Cursor) -> (r: Result<i32, DeserializeError>) {
        let v = data.read_u32()?;
        if v < 0x8000_0000 {
            Ok(v as i32)
        } else {
            Ok((v - 0x8000_0000) as i32 + i32::MIN)
        }
    }
}

impl Deserialize for i64 {
    open spec fn decoded(data: Seq<u8>, pos: nat) -> Option<(i64, nat)> {
        if has_bytes(data, pos, 8) {
            Some((as_signed(le_value(data, pos, 8), 0x8000_0000_0000_0000) as i64, pos + 8))
        } else {
            None
        }
    }

    fn deserialize(data: &mut Cursor) -> (r: Result<i64, DeserializeError>) {
        let v = data.read_u64()?;
        if v < 0x8000_0000_0000_0000 {
            Ok(v as i64)
        } else {
            Ok((v - 0x8000_0000_0000_0000) as i64 + i64::MIN)
        }
    }
}

impl Deserialize for bool {
    /// A byte that is not zero is `true`.
    open spec fn decoded(data: Seq<u8>, pos: nat) -> Option<(bool, nat)> {
        if has_bytes(data, pos, 1) {
            Some((le_value(data, pos, 1) != 0, pos + 1))
        } else {
            None
        }
    }

    fn deserialize(data: &mut Cursor) -> (r: Result<bool, DeserializeError>) {
        let v = data.read_u8()?;
        Ok(v != 0)
    }
}

impl<T: Deserialize> Deserialize for Option<T> {
    /// A flag, and the value where the flag is `true`.
    open spec fn decoded(data: Seq<u8>, pos: nat) -> Option<(Option<T::V>, nat)> {
        match <bool as Deserialize>::decoded(data, pos) {
            None => None,
            Some((false, p)) => Some((None, p)),
            Some((true, p)) => match T::decoded(data, p) {
                None => None,
                Some((v, q)) => Some((Some(v), q)),
            },
        }
    }

    fn deserialize(data: &mut Cursor) -> (r: Result<Option<T>, DeserializeError>) {
        if <bool as Deserialize>::deserialize(data)? {
            Ok(Some(T::deserialize(data)?))
        } else {
            Ok(None)
        }
    }
}

/// What `count` values in a row from `pos` on decode to, with the position
/// after the last.
pub open spec fn decoded_items<T: Deserialize>(data: Seq<u8>, pos: nat, count: nat) -> Option<
    (Seq<T::V>, nat),
>
    decreases count,
{
    if count == 0 {
        Some((Seq::empty(), pos))
    } else {
        match decoded_items::<T>(data, pos, (count - 1) as nat) {
            None => None,
            Some((front, p)) => match T::decoded(data, p) {
                None => None,
                Some((v, q)) => Some((front.push(v), q)),
            },
        }
    }
}

/// Where the first values cannot be decoded, more cannot either.
pub(crate) proof fn lemma_items_fail_on<T: Deserialize>(data: Seq<u8>, pos: nat, fewer: nat, count: nat)
    requires
        fewer <= count,
        decoded_items::<T>(data, pos, fewer) is None,
    ensures
        decoded_items::<T>(data, pos, count) is None,
    decreases count,
{
    if fewer < count {
        lemma_items_fail_on::<T>(data, pos, fewer, (count - 1) as nat);
    }
}

impl<T: Deserialize> Deserialize for Vec<T> {
    /// A count of one byte, and as many values.
    open spec fn decoded(data: Seq<u8>, pos: nat) -> Option<(Seq<T::V>, nat)> {
        match <u8 as Deserialize>::decoded(data, pos) {
            None => None,
            Some((count, p)) => decoded_items::<T>(data, p, count as nat),
        }
    }

    fn deserialize(data: &mut Cursor) -> (r: Result<Vec<T>, DeserializeError>) {
        let len = <u8 as Deserialize>::deserialize(data)?;
        let ghost start = data.pos();
        let mut vec: Vec<T> = Vec::new();
        let mut i: u8 = 0;
        while i < len
            invariant
                i <= len,
                data.bytes() == old(data).bytes(),
                <u8 as Deserialize>::decoded(old(data).bytes(), old(data).pos()) == Some(
                    (len, start),
                ),
                decoded_items::<T>(data.bytes(), start, i as nat) == Some(
                    (vec.deep_view(), data.pos()),
                ),
            decreases len - i,
        {
            match T::deserialize(data) {
                Err(e) => {
                    proof {
                        lemma_items_fail_on::<T>(data.bytes(), start, (i + 1) as nat, len as nat);
                    }
                    return Err(e);
                },
                Ok(v) => {
                    vec.push(v);
                },
            }
            i += 1;
        }
        Ok(vec)
    }
}

} // verus!
