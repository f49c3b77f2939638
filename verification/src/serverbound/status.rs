//! Serverbound packets of the status phase.

use vstd::prelude::*;
use crate::codec::{
    ByteReader, ReadingError, be_bytes, i64_bits, lemma_take_i64, take_i64,
};
use crate::handshake::JavaMinecraftVersion;

verus! {

/// Asks the server for its status; the packet carries no data.
#[derive(Debug, Clone, Copy, PartialEq, Eq, Structural)]
pub struct SStatusRequest;

impl SStatusRequest {
    /// Decode a status request: nothing is read and decoding always succeeds.
    pub fn read(read: &mut ByteReader, _version: &JavaMinecraftVersion) -> (res: Result<
        Self,
        ReadingError,
    >)
        ensures
            final(read).data() == old(read).data(),
            final(read).rest() == old(read).rest(),
            res == Ok::<Self, ReadingError>(SStatusRequest),
    {
        Ok(SStatusRequest)
    }
}

/// A ping whose payload the server echoes back.
#[derive(Debug, Clone, Copy, PartialEq, Eq, Structural)]
pub struct SStatusPingRequest {
    pub payload: i64,
}

/// A status ping off the front of `s`, and what follows it.
pub open spec fn parse_status_ping(s: Seq<u8>) -> Result<(SStatusPingRequest, Seq<u8>), ReadingError> {
    match take_i64(s) {
        Ok((payload, rest)) => Ok((SStatusPingRequest { payload }, rest)),
        Err(e) => Err(e),
    }
}

/// The bytes of a status ping.
pub open spec fn status_ping_bytes(p: SStatusPingRequest) -> Seq<u8> {
    be_bytes(i64_bits(p.payload), 8)
}

impl SStatusPingRequest {
    /// Decode a status ping from the front of `read`.
    pub fn read(read: &mut ByteReader, _version: &JavaMinecraftVersion) -> (res: Result<
        Self,
        ReadingError,
    >)
        ensures
            final(read).data() == old(read).data(),
            match parse_status_ping(old(read).rest()) {
                Ok((p, rest)) => res == Ok::<Self, ReadingError>(p) && final(read).rest() == rest,
                Err(e) => res == Err::<Self, ReadingError>(e),
            },
    {
        match read.get_i64_be() {
            Ok(payload) => Ok(SStatusPingRequest { payload }),
            Err(e) => Err(e),
        }
    }
}

/// Decoding a written status ping, whatever follows it, gives it back.
pub proof fn lemma_status_ping_roundtrip(p: SStatusPingRequest, rest: Seq<u8>)
    ensures
        parse_status_ping(status_ping_bytes(p) + rest) == Ok::<
            (SStatusPingRequest, Seq<u8>),
            ReadingError,
        >((p, rest)),
{
    lemma_take_i64(p.payload, rest);
}

} // verus!
