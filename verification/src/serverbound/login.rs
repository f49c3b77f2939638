//! Serverbound packets of the login phase.

use vstd::prelude::*;
use vstd::utf8::*;
use crate::codec::{
    ByteReader, MAX_PREFIXED_LENGTH, ReadingError, VarInt, be_bytes, byte_array_bytes,
    lemma_take_bool, lemma_take_bounded_string, lemma_take_byte_array, lemma_take_u128,
    lemma_take_var_int, string_bytes, take_bool, take_bounded_string, take_byte_array, take_u128,
    take_var_int, var_int_bytes,
};
use crate::handshake::JavaMinecraftVersion;

verus! {

/// The longest player name a login may carry, in bytes.
pub const MAX_NAME_LENGTH: usize = 16;

/// The player asks to log in: their name and UUID (the UUID's 16 bytes
/// read as one big-endian number).
pub struct SLoginStart {
    pub name: String,
    pub uuid: u128,
}

/// A login start off the front of `s`: a name string of at most 16 bytes,
/// then 16 bytes of UUID.
pub open spec fn parse_login_start(s: Seq<u8>) -> Result<(Seq<char>, u128, Seq<u8>), ReadingError> {
    match take_bounded_string(s, MAX_NAME_LENGTH as int) {
        Err(e) => Err(e),
        Ok((name, s1)) => match take_u128(s1) {
            Err(e) => Err(e),
            Ok((uuid, s2)) => Ok((name, uuid, s2)),
        },
    }
}

/// The bytes of a login start.
pub open spec fn login_start_bytes(name: Seq<char>, uuid: u128) -> Seq<u8> {
    string_bytes(name) + be_bytes(uuid as nat, 16)
}

impl SLoginStart {
    /// Decode a login start from the front of `read`.
    pub fn read(read: &mut ByteReader, _version: &JavaMinecraftVersion) -> (res: Result<
        Self,
        ReadingError,
    >)
        ensures
            final(read).data() == old(read).data(),
            match parse_login_start(old(read).rest()) {
                Ok((name, uuid, rest)) => res matches Ok(p) && p.name@ == name && p.uuid == uuid
                    && final(read).rest() == rest,
                Err(e) => res matches Err(r) && r == e,
            },
    {
        let name = match read.get_string_bounded(MAX_NAME_LENGTH) {
            Ok(v) => v,
            Err(e) => {
                return Err(e);
            },
        };
        let uuid = match read.get_u128_be() {
            Ok(v) => v,
            Err(e) => {
                return Err(e);
            },
        };
        Ok(SLoginStart { name, uuid })
    }
}

/// Decoding a written login start, whatever follows it, gives back its
/// name and UUID, for every name of at most 16 bytes.
pub proof fn lemma_login_start_roundtrip(name: Seq<char>, uuid: u128, rest: Seq<u8>)
    requires
        encode_utf8(name).len() <= MAX_NAME_LENGTH,
    ensures
        parse_login_start(login_start_bytes(name, uuid) + rest) == Ok::<
            (Seq<char>, u128, Seq<u8>),
            ReadingError,
        >((name, uuid, rest)),
{
    let a = string_bytes(name);
    let b = be_bytes(uuid as nat, 16);
    assert(login_start_bytes(name, uuid) + rest =~= a + (b + rest));
    lemma_take_bounded_string(name, MAX_NAME_LENGTH as int, b + rest);
    lemma_take_u128(uuid, rest);
}


proof fn lemma_assoc(a: Seq<u8>, b: Seq<u8>, c: Seq<u8>)
    ensures
        (a + b) + c == a + (b + c),
{
    assert((a + b) + c =~= a + (b + c));
}

/// The client's answer to the encryption request: the shared secret and the
/// verify token, each encrypted with the server's key, as length-prefixed
/// byte arrays on which the packet sets no bound of its own.
pub struct SEncryptionResponse {
    pub shared_secret: Vec<u8>,
    pub verify_token: Vec<u8>,
}

/// An encryption response off the front of `s`: two length-prefixed byte
/// arrays.
pub open spec fn parse_encryption_response(s: Seq<u8>) -> Result<
    (Seq<u8>, Seq<u8>, Seq<u8>),
    ReadingError,
> {
    match take_byte_array(s, MAX_PREFIXED_LENGTH as int) {
        Err(e) => Err(e),
        Ok((secret, s1)) => match take_byte_array(s1, MAX_PREFIXED_LENGTH as int) {
            Err(e) => Err(e),
            Ok((token, s2)) => Ok((secret, token, s2)),
        },
    }
}

/// The bytes of an encryption response.
pub open spec fn encryption_response_bytes(secret: Seq<u8>, token: Seq<u8>) -> Seq<u8> {
    byte_array_bytes(secret) + byte_array_bytes(token)
}

impl SEncryptionResponse {
    /// Decode an encryption response from the front of `read`.
    pub fn read(read: &mut ByteReader, _version: &JavaMinecraftVersion) -> (res: Result<
        Self,
        ReadingError,
    >)
        ensures
            final(read).data() == old(read).data(),
            match parse_encryption_response(old(read).rest()) {
                Ok((secret, token, rest)) => res matches Ok(p) && p.shared_secret@ == secret
                    && p.verify_token@ == token && final(read).rest() == rest,
                Err(e) => res matches Err(r) && r == e,
            },
    {
        let shared_secret = match read.get_byte_array(MAX_PREFIXED_LENGTH) {
            Ok(v) => v,
            Err(e) => {
                return Err(e);
            },
        };
        let verify_token = match read.get_byte_array(MAX_PREFIXED_LENGTH) {
            Ok(v) => v,
            Err(e) => {
                return Err(e);
            },
        };
        Ok(SEncryptionResponse { shared_secret, verify_token })
    }
}

/// Decoding a written encryption response gives back both arrays.
pub proof fn lemma_encryption_response_roundtrip(secret: Seq<u8>, token: Seq<u8>, rest: Seq<u8>)
    requires
        secret.len() <= i32::MAX,
        token.len() <= i32::MAX,
    ensures
        parse_encryption_response(encryption_response_bytes(secret, token) + rest) == Ok::<
            (Seq<u8>, Seq<u8>, Seq<u8>),
            ReadingError,
        >((secret, token, rest)),
{
    let a = byte_array_bytes(secret);
    let b = byte_array_bytes(token);
    lemma_assoc(a, b, rest);
    lemma_take_byte_array(secret, MAX_PREFIXED_LENGTH as int, b + rest);
    lemma_take_byte_array(token, MAX_PREFIXED_LENGTH as int, rest);
}

/// The client's answer to a login plugin request: the request's message id
/// and, if the client understood the request, its length-prefixed answer.
pub struct SLoginPluginResponse {
    pub message_id: VarInt,
    pub data: Option<Vec<u8>>,
}

/// A login plugin response off the front of `s`: the message id VarInt, a
/// presence flag, and when present a length-prefixed answer.
pub open spec fn parse_login_plugin_response(s: Seq<u8>) -> Result<
    (i32, Option<Seq<u8>>, Seq<u8>),
    ReadingError,
> {
    match take_var_int(s) {
        Err(e) => Err(e),
        Ok((id, s1)) => match take_bool(s1) {
            Err(e) => Err(e),
            Ok((present, s2)) => if !present {
                Ok((id, None, s2))
            } else {
                match take_byte_array(s2, MAX_PREFIXED_LENGTH as int) {
                    Err(e) => Err(e),
                    Ok((data, s3)) => Ok((id, Some(data), s3)),
                }
            },
        },
    }
}

/// The bytes of a login plugin response.
pub open spec fn login_plugin_response_bytes(id: i32, data: Option<Seq<u8>>) -> Seq<u8> {
    match data {
        None => var_int_bytes(id) + seq![0u8],
        Some(d) => var_int_bytes(id) + (seq![1u8] + byte_array_bytes(d)),
    }
}

impl SLoginPluginResponse {
    /// Decode a login plugin response from the front of `read`.
    pub fn read(read: &mut ByteReader, _version: &JavaMinecraftVersion) -> (res: Result<
        Self,
        ReadingError,
    >)
        ensures
            final(read).data() == old(read).data(),
            match parse_login_plugin_response(old(read).rest()) {
                Ok((id, data, rest)) => res matches Ok(p) && p.message_id == VarInt(id) && (match data {
                    None => p.data is None,
                    Some(d) => p.data matches Some(v) && v@ == d,
                }) && final(read).rest() == rest,
                Err(e) => res matches Err(r) && r == e,
            },
    {
        let message_id = match read.get_var_int() {
            Ok(v) => v,
            Err(e) => {
                return Err(e);
            },
        };
        let present = match read.get_bool() {
            Ok(v) => v,
            Err(e) => {
                return Err(e);
            },
        };
        if !present {
            return Ok(SLoginPluginResponse { message_id, data: None });
        }
        match read.get_byte_array(MAX_PREFIXED_LENGTH) {
            Ok(d) => Ok(SLoginPluginResponse { message_id, data: Some(d) }),
            Err(e) => Err(e),
        }
    }
}

/// Decoding a written login plugin response gives back its id and answer.
pub proof fn lemma_login_plugin_response_roundtrip(
    id: i32,
    data: Option<Seq<u8>>,
    rest: Seq<u8>,
)
    requires
        data matches Some(d) ==> d.len() <= i32::MAX,
    ensures
        parse_login_plugin_response(login_plugin_response_bytes(id, data) + rest) == Ok::<
            (i32, Option<Seq<u8>>, Seq<u8>),
            ReadingError,
        >((id, data, rest)),
{
    let a = var_int_bytes(id);
    match data {
        None => {
            lemma_assoc(a, seq![0u8], rest);
            lemma_take_var_int(id, seq![0u8] + rest);
            lemma_take_bool(false, rest);
        },
        Some(d) => {
            let b = seq![1u8];
            let c = byte_array_bytes(d);
            lemma_assoc(a, b + c, rest);
            lemma_assoc(b, c, rest);
            lemma_take_var_int(id, (b + c) + rest);
            lemma_take_bool(true, c + rest);
            lemma_take_byte_array(d, MAX_PREFIXED_LENGTH as int, rest);
        },
    }
}

} // verus!
