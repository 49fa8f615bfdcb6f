//! Frames as they come off the wire, and the packet identifiers of typed
//! packets.
use crate::buffer::{bytes_slice, bytes_view};
use crate::encoding::de::{DeError, Deserialize};
use crate::encoding::ser::Serialize;
use crate::encoding::serialize_bytes;
use bytes::Bytes;
use vstd::prelude::*;

verus! {

/// A type whose values travel in frames with a fixed packet identifier.
pub trait PacketId {
    /// The packet identifier.
    const ID: i32;
}

/// One frame: a packet identifier and the payload bytes that followed it.
#[derive(Debug)]
pub struct RawPacket {
    /// Packet identifier.
    pub packet_id: i32,
    /// Payload.
    pub data: Bytes,
}

impl View for RawPacket {
    type V = (i32, Seq<u8>);

    open spec fn view(&self) -> (i32, Seq<u8>) {
        (self.packet_id, bytes_view(self.data))
    }
}

impl RawPacket {
    /// Whether this frame carries packets of type `T`.
    pub fn is<T: PacketId>(&self) -> (r: bool)
        ensures
            r == (self.packet_id == T::ID),
    {
        self.packet_id == T::ID
    }

    /// Reads the payload as a `T`, whatever the packet identifier; bytes left
    /// after the value are ignored. Borrowed types hand out views into the
    /// payload.
    pub fn deserialize_unchecked<'a, T: Deserialize<'a> + PacketId>(&'a self) -> (r: Result<
        T,
        DeError,
    >)
        ensures
            match (r, T::spec_deserialize(self@.1)) {
                (Ok(v), Ok((w, _))) => v.deep_view() == w,
                (Err(e), Err(f)) => e == f,
                _ => false,
            },
    {
        match T::deserialize(bytes_slice(&self.data)) {
            Ok((v, _)) => Ok(v),
            Err(e) => Err(e),
        }
    }

    /// Reads the payload as a `T` when the frame carries packets of type `T`,
    /// else `None`.
    pub fn deserialize<'a, T: Deserialize<'a> + PacketId>(&'a self) -> (r: Option<
        Result<T, DeError>,
    >)
        ensures
            r is Some <==> self.packet_id == T::ID,
            match (r, T::spec_deserialize(self@.1)) {
                (Some(Ok(v)), Ok((w, _))) => v.deep_view() == w,
                (Some(Err(e)), Err(f)) => e == f,
                (None, _) => true,
                _ => false,
            },
    {
        if self.is::<T>() {
            Some(self.deserialize_unchecked())
        } else {
            None
        }
    }

    /// The frame that carries `value`: its type's identifier and its bytes.
    pub fn from_packet<T: Serialize + PacketId>(value: &T) -> (r: RawPacket)
        requires
            value.spec_serialize().len() <= usize::MAX,
        ensures
            r@ == (T::ID, value.spec_serialize()),
    {
        RawPacket { packet_id: T::ID, data: serialize_bytes(value) }
    }
}

} // verus!
