//! The serverbound handshake packet, the first packet of every connection.

use vstd::prelude::*;
use vstd::utf8::*;
use crate::codec::{
    ByteReader, NetworkWriteExt, ReadingError, VarInt, WritingError, be_bytes, be_value,
    lemma_be_roundtrip, lemma_parse_var_int_len, lemma_string_roundtrip, lemma_var_int_roundtrip,
    parse_string, parse_var_int, pow256, string_bytes, var_int_bytes,
};

verus! {

/// The protocol phase a connection is in.
#[derive(Debug, Clone, Copy, PartialEq, Eq, Structural)]
pub enum ConnectionState {
    HandShake,
    Status,
    Login,
    Transfer,
    Config,
    Play,
}

/// Wire number of each connection state.
pub open spec fn state_id(state: ConnectionState) -> i32 {
    match state {
        ConnectionState::HandShake => 0,
        ConnectionState::Status => 1,
        ConnectionState::Login => 2,
        ConnectionState::Transfer => 3,
        ConnectionState::Config => 4,
        ConnectionState::Play => 5,
    }
}

/// The states a handshake may ask to move to, by wire number.
pub open spec fn state_from_id(id: i32) -> Option<ConnectionState> {
    if id == 1 {
        Some(ConnectionState::Status)
    } else if id == 2 {
        Some(ConnectionState::Login)
    } else if id == 3 {
        Some(ConnectionState::Transfer)
    } else {
        None
    }
}

impl ConnectionState {
    /// The wire number of this state.
    pub fn id(&self) -> (id: i32)
        ensures
            id == state_id(*self),
    {
        match self {
            ConnectionState::HandShake => 0,
            ConnectionState::Status => 1,
            ConnectionState::Login => 2,
            ConnectionState::Transfer => 3,
            ConnectionState::Config => 4,
            ConnectionState::Play => 5,
        }
    }

    /// The state a handshake's `next_state` field names, if it names one
    /// a client may ask for.
    pub fn from_next_state(id: VarInt) -> (state: Option<ConnectionState>)
        ensures
            state == state_from_id(id.0),
    {
        if id.0 == 1 {
            Some(ConnectionState::Status)
        } else if id.0 == 2 {
            Some(ConnectionState::Login)
        } else if id.0 == 3 {
            Some(ConnectionState::Transfer)
        } else {
            None
        }
    }
}

/// A Java Edition protocol version, by protocol number.
#[derive(Debug, Clone, Copy, PartialEq, Eq, Structural)]
pub struct JavaMinecraftVersion {
    pub protocol: i32,
}

impl JavaMinecraftVersion {
    /// The version with the given protocol number.
    pub fn from_protocol(protocol: i32) -> (v: Self)
        ensures
            v.protocol == protocol,
    {
        JavaMinecraftVersion { protocol }
    }
}

/// The very first packet sent by the client to initiate a connection.
///
/// It determines whether the client wants to check the server status or
/// log in to play.
pub struct SHandShake {
    /// The protocol version of the client (e.g. 767 for 1.21).
    pub protocol_version: VarInt,
    /// The hostname or IP used by the client to connect.
    pub server_address: String,
    /// The port number used by the client to connect.
    pub server_port: u16,
    /// The state the client wants to move to.
    pub next_state: ConnectionState,
}

/// The handshake fields at the front of `s` (protocol version, address
/// characters, port, next state) and the number of bytes they take, or why
/// they cannot be read.
pub open spec fn parse_handshake(s: Seq<u8>) -> Result<
    (i32, Seq<char>, u16, ConnectionState, int),
    ReadingError,
> {
    match parse_var_int(s) {
        Err(e) => Err(e),
        Ok((protocol, k1)) => match parse_string(s.skip(k1)) {
            Err(e) => Err(e),
            Ok((address, k2)) => {
                let s3 = s.skip(k1 + k2);
                if s3.len() < 2 {
                    Err(ReadingError::Incomplete)
                } else {
                    match parse_var_int(s3.skip(2)) {
                        Err(e) => Err(e),
                        Ok((next, k4)) => match state_from_id(next) {
                            None => Err(ReadingError::InvalidStatus),
                            Some(state) => Ok(
                                (protocol, address, be_value(s3, 2) as u16, state, k1 + k2 + 2 + k4),
                            ),
                        },
                    }
                }
            },
        },
    }
}

/// The bytes of a handshake with the given fields.
pub open spec fn handshake_bytes(
    protocol: i32,
    address: Seq<char>,
    port: u16,
    state: ConnectionState,
) -> Seq<u8> {
    var_int_bytes(protocol) + string_bytes(address) + be_bytes(port as nat, 2) + var_int_bytes(
        state_id(state),
    )
}

/// Reading back a written handshake, whatever follows it, gives the same
/// fields, for every state a handshake may ask for.
pub proof fn lemma_handshake_roundtrip(
    protocol: i32,
    address: Seq<char>,
    port: u16,
    state: ConnectionState,
    rest: Seq<u8>,
)
    requires
        encode_utf8(address).len() <= i32::MAX,
        state_from_id(state_id(state)) == Some(state),
    ensures
        parse_handshake(handshake_bytes(protocol, address, port, state) + rest) == Ok::<
            (i32, Seq<char>, u16, ConnectionState, int),
            ReadingError,
        >(
            (
                protocol,
                address,
                port,
                state,
                handshake_bytes(protocol, address, port, state).len() as int,
            ),
        ),
{
    let a = var_int_bytes(protocol);
    let b = string_bytes(address);
    let c = be_bytes(port as nat, 2);
    let d = var_int_bytes(state_id(state));
    let t3 = d + rest;
    let t2 = c + t3;
    let t1 = b + t2;
    let s = a + t1;
    lemma_concat4(a, b, c, d, rest);
    assert(handshake_bytes(protocol, address, port, state) + rest == s);
    lemma_var_int_roundtrip(protocol, t1);
    let k1 = a.len() as int;
    lemma_skip_concat(a, t1);
    lemma_string_roundtrip(address, t2);
    let k2 = b.len() as int;
    lemma_skip_concat(b, t2);
    lemma_skip_skip(s, k1, k2);
    lemma_be_roundtrip(port as nat, 2, t3);
    assert(pow256(2) == 65536) by {
        reveal_with_fuel(pow256, 3);
    }
    lemma_skip_concat(c, t3);
    lemma_var_int_roundtrip(state_id(state), rest);
    assert(handshake_bytes(protocol, address, port, state).len() == a.len() + b.len() + 2
        + d.len());
}

proof fn lemma_concat4(a: Seq<u8>, b: Seq<u8>, c: Seq<u8>, d: Seq<u8>, rest: Seq<u8>)
    ensures
        a + b + c + d + rest == a + (b + (c + (d + rest))),
{
    assert(a + b + c + d + rest =~= a + (b + (c + (d + rest))));
}

proof fn lemma_skip_concat(x: Seq<u8>, y: Seq<u8>)
    ensures
        (x + y).skip(x.len() as int) == y,
{
    assert((x + y).skip(x.len() as int) =~= y);
}

proof fn lemma_skip_skip(s: Seq<u8>, a: int, b: int)
    requires
        0 <= a,
        0 <= b,
        a + b <= s.len(),
    ensures
        s.skip(a).skip(b) == s.skip(a + b),
{
    assert(s.skip(a).skip(b) =~= s.skip(a + b));
}

impl SHandShake {
    /// Decode a handshake from the front of `read`.
    pub fn read(read: &mut ByteReader, _version: &JavaMinecraftVersion) -> (res: Result<
        Self,
        ReadingError,
    >)
        ensures
            final(read).data() == old(read).data(),
            match parse_handshake(old(read).rest()) {
                Ok((protocol, address, port, state, k)) => res matches Ok(h) && h.protocol_version
                    == VarInt(protocol) && h.server_address@ == address && h.server_port == port
                    && h.next_state == state && final(read).pos() == old(read).pos() + k,
                Err(e) => res matches Err(r) && r == e,
            },
    {
        let ghost s = read.rest();
        let ghost p0 = read.pos();
        let _ = read.position();
        let protocol_version = match read.get_var_int() {
            Ok(v) => v,
            Err(e) => {
                return Err(e);
            },
        };
        let _ = read.position();
        let ghost k1 = read.pos() - p0;
        proof {
            lemma_parse_var_int_len(s, 0, 0);
            lemma_skip_skip(read.data(), p0, k1);
        }
        let server_address = match read.get_str() {
            Ok(a) => a,
            Err(e) => {
                return Err(e);
            },
        };
        let _ = read.position();
        let ghost k2 = read.pos() - p0 - k1;
        proof {
            let s2 = s.skip(k1);
            if let Ok((n, kn)) = parse_var_int(s2) {
                lemma_parse_var_int_len(s2, 0, 0);
            }
            lemma_skip_skip(read.data(), p0, k1 + k2);
        }
        let server_port = match read.get_u16_be() {
            Ok(p) => p,
            Err(e) => {
                return Err(e);
            },
        };
        let _ = read.position();
        proof {
            lemma_skip_skip(read.data(), p0, k1 + k2 + 2);
            lemma_skip_skip(s, k1 + k2, 2);
        }
        let next = match read.get_var_int() {
            Ok(v) => v,
            Err(e) => {
                return Err(e);
            },
        };
        let next_state = match ConnectionState::from_next_state(next) {
            Some(st) => st,
            None => {
                return Err(ReadingError::InvalidStatus);
            },
        };
        Ok(SHandShake { protocol_version, server_address, server_port, next_state })
    }

    /// Encode this handshake's fields, appending them to `write`.
    pub fn write_packet_data(&self, write: &mut Vec<u8>, _version: &JavaMinecraftVersion) -> (res:
        Result<(), WritingError>)
        ensures
            encode_utf8(self.server_address@).len() <= i32::MAX ==> res is Ok && final(write)@
                == old(write)@ + handshake_bytes(
                self.protocol_version.0,
                self.server_address@,
                self.server_port,
                self.next_state,
            ),
            encode_utf8(self.server_address@).len() > i32::MAX ==> res == Err::<(), WritingError>(
                WritingError::TooLong,
            ),
    {
        let _ = write.write_var_int(&self.protocol_version);
        let r = write.write_string(self.server_address.as_str());
        if let Err(e) = r {
            return Err(e);
        }
        let _ = write.write_u16_be(self.server_port);
        let _ = write.write_var_int(&VarInt(self.next_state.id()));
        assert(write@ =~= old(write)@ + handshake_bytes(
            self.protocol_version.0,
            self.server_address@,
            self.server_port,
            self.next_state,
        ));
        Ok(())
    }
}


/// The wire numbers of the connection states: handshake 0, status 1,
/// login 2, transfer 3, configuration 4, play 5. A handshake may ask for
/// exactly the states numbered 1 to 3, and reading a state's number back
/// gives that state.
pub proof fn lemma_state_ids_on_the_wire(s: ConnectionState, id: i32)
    ensures
        state_id(ConnectionState::HandShake) == 0,
        state_id(ConnectionState::Status) == 1,
        state_id(ConnectionState::Login) == 2,
        state_id(ConnectionState::Transfer) == 3,
        state_id(ConnectionState::Config) == 4,
        state_id(ConnectionState::Play) == 5,
        state_from_id(id) is Some <==> 1 <= id <= 3,
        state_from_id(id) matches Some(t) ==> state_id(t) == id,
        1 <= state_id(s) <= 3 ==> state_from_id(state_id(s)) == Some(s),
{
}

} // verus!
