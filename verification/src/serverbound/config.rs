//! Serverbound packets of the configuration phase.

use vstd::prelude::*;
use vstd::utf8::*;
use crate::codec::{
    ByteReader, ReadingError, VarInt, be_bytes, i64_bits, lemma_take_i64, lemma_take_u128,
    take_u128,
    lemma_take_string, lemma_take_var_int, string_bytes, take_i64, take_remaining, take_string,
    take_var_int, var_int_bytes,
};
use crate::handshake::JavaMinecraftVersion;
use crate::serverbound::{ClientInformationFields, parse_client_information, read_client_information};

verus! {

/// The largest plugin message payload a client may send.
pub const MAX_PLUGIN_MESSAGE_SIZE: usize = 1048576;

/// The client's settings, sent while configuring.
pub struct SClientInformationConfig {
    pub locale: String,
    pub view_distance: i8,
    pub chat_mode: VarInt,
    pub chat_colors: bool,
    pub skin_parts: u8,
    pub main_hand: VarInt,
    pub text_filtering: bool,
    pub server_listing: bool,
}

impl View for SClientInformationConfig {
    type V = ClientInformationFields;

    open spec fn view(&self) -> ClientInformationFields {
        ClientInformationFields {
            locale: self.locale@,
            view_distance: self.view_distance,
            chat_mode: self.chat_mode.0,
            chat_colors: self.chat_colors,
            skin_parts: self.skin_parts,
            main_hand: self.main_hand.0,
            text_filtering: self.text_filtering,
            server_listing: self.server_listing,
        }
    }
}

impl SClientInformationConfig {
    /// Decode the client's settings from the front of `read`.
    pub fn read(read: &mut ByteReader, _version: &JavaMinecraftVersion) -> (res: Result<
        Self,
        ReadingError,
    >)
        ensures
            final(read).data() == old(read).data(),
            match parse_client_information(old(read).rest()) {
                Ok((f, rest)) => res matches Ok(p) && p@ == f && final(read).rest() == rest,
                Err(e) => res matches Err(r) && r == e,
            },
    {
        match read_client_information(read) {
            Ok(t) => Ok(
                SClientInformationConfig {
                    locale: t.0,
                    view_distance: t.1,
                    chat_mode: t.2,
                    chat_colors: t.3,
                    skin_parts: t.4,
                    main_hand: t.5,
                    text_filtering: t.6,
                    server_listing: t.7,
                },
            ),
            Err(e) => Err(e),
        }
    }
}

/// A message on a named plugin channel; the payload runs to the end of the
/// packet.
pub struct SPluginMessage {
    pub channel: String,
    pub data: Vec<u8>,
}

/// A plugin message off the front of `s`: the channel string, then every
/// remaining byte as payload, within the payload bound.
pub open spec fn parse_plugin_message(s: Seq<u8>) -> Result<
    (Seq<char>, Seq<u8>, Seq<u8>),
    ReadingError,
> {
    match take_string(s) {
        Err(e) => Err(e),
        Ok((channel, s1)) => match take_remaining(s1, MAX_PLUGIN_MESSAGE_SIZE as int) {
            Err(e) => Err(e),
            Ok((data, s2)) => Ok((channel, data, s2)),
        },
    }
}

/// The bytes of a plugin message.
pub open spec fn plugin_message_bytes(channel: Seq<char>, data: Seq<u8>) -> Seq<u8> {
    string_bytes(channel) + data
}

impl SPluginMessage {
    /// Decode a plugin message from the front of `read`.
    pub fn read(read: &mut ByteReader, _version: &JavaMinecraftVersion) -> (res: Result<
        Self,
        ReadingError,
    >)
        ensures
            final(read).data() == old(read).data(),
            match parse_plugin_message(old(read).rest()) {
                Ok((channel, data, rest)) => res matches Ok(p) && p.channel@ == channel && p.data@
                    == data && final(read).rest() == rest,
                Err(e) => res matches Err(r) && r == e,
            },
    {
        let channel = match read.get_str() {
            Ok(v) => v,
            Err(e) => {
                return Err(e);
            },
        };
        let data = match read.read_remaining(MAX_PLUGIN_MESSAGE_SIZE) {
            Ok(v) => v,
            Err(e) => {
                return Err(e);
            },
        };
        Ok(SPluginMessage { channel, data })
    }
}

/// Decoding a written plugin message gives back its channel and payload,
/// for every payload within the bound.
pub proof fn lemma_plugin_message_roundtrip(channel: Seq<char>, data: Seq<u8>)
    requires
        encode_utf8(channel).len() <= i32::MAX,
        data.len() <= MAX_PLUGIN_MESSAGE_SIZE,
    ensures
        parse_plugin_message(plugin_message_bytes(channel, data)) == Ok::<
            (Seq<char>, Seq<u8>, Seq<u8>),
            ReadingError,
        >((channel, data, Seq::<u8>::empty())),
{
    lemma_take_string(channel, data);
}

/// The number of data packs the client already knows.
#[derive(Debug, Clone, Copy, PartialEq, Eq, Structural)]
pub struct SKnownPacks {
    pub known_pack_count: VarInt,
}

/// A known-packs packet off the front of `s`.
pub open spec fn parse_known_packs(s: Seq<u8>) -> Result<(SKnownPacks, Seq<u8>), ReadingError> {
    match take_var_int(s) {
        Ok((n, rest)) => Ok((SKnownPacks { known_pack_count: VarInt(n) }, rest)),
        Err(e) => Err(e),
    }
}

impl SKnownPacks {
    /// Decode a known-packs packet from the front of `read`.
    pub fn read(read: &mut ByteReader, _version: &JavaMinecraftVersion) -> (res: Result<
        Self,
        ReadingError,
    >)
        ensures
            final(read).data() == old(read).data(),
            match parse_known_packs(old(read).rest()) {
                Ok((p, rest)) => res == Ok::<Self, ReadingError>(p) && final(read).rest() == rest,
                Err(e) => res == Err::<Self, ReadingError>(e),
            },
    {
        match read.get_var_int() {
            Ok(n) => Ok(SKnownPacks { known_pack_count: n }),
            Err(e) => Err(e),
        }
    }
}

/// Decoding a written known-packs packet gives it back.
pub proof fn lemma_known_packs_roundtrip(p: SKnownPacks, rest: Seq<u8>)
    ensures
        parse_known_packs(var_int_bytes(p.known_pack_count.0) + rest) == Ok::<
            (SKnownPacks, Seq<u8>),
            ReadingError,
        >((p, rest)),
{
    lemma_take_var_int(p.known_pack_count.0, rest);
}

/// Keeps the configuring connection alive by echoing the server's id.
#[derive(Debug, Clone, Copy, PartialEq, Eq, Structural)]
pub struct SKeepAlive {
    pub keep_alive_id: i64,
}

/// A configuration keep-alive off the front of `s`.
pub open spec fn parse_keep_alive(s: Seq<u8>) -> Result<(SKeepAlive, Seq<u8>), ReadingError> {
    match take_i64(s) {
        Ok((id, rest)) => Ok((SKeepAlive { keep_alive_id: id }, rest)),
        Err(e) => Err(e),
    }
}

impl SKeepAlive {
    /// Decode a keep-alive from the front of `read`.
    pub fn read(read: &mut ByteReader, _version: &JavaMinecraftVersion) -> (res: Result<
        Self,
        ReadingError,
    >)
        ensures
            final(read).data() == old(read).data(),
            match parse_keep_alive(old(read).rest()) {
                Ok((p, rest)) => res == Ok::<Self, ReadingError>(p) && final(read).rest() == rest,
                Err(e) => res == Err::<Self, ReadingError>(e),
            },
    {
        match read.get_i64_be() {
            Ok(id) => Ok(SKeepAlive { keep_alive_id: id }),
            Err(e) => Err(e),
        }
    }
}

/// Decoding a written keep-alive gives it back.
pub proof fn lemma_keep_alive_roundtrip(p: SKeepAlive, rest: Seq<u8>)
    ensures
        parse_keep_alive(be_bytes(i64_bits(p.keep_alive_id), 8) + rest) == Ok::<
            (SKeepAlive, Seq<u8>),
            ReadingError,
        >((p, rest)),
{
    lemma_take_i64(p.keep_alive_id, rest);
}


/// The client's report on a resource pack the server offered: the pack's
/// UUID (its 16 bytes read as one big-endian number) and the result code.
#[derive(Debug, Clone, Copy, PartialEq, Eq, Structural)]
pub struct SConfigResourcePack {
    pub uuid: u128,
    pub result: VarInt,
}

/// A resource pack report off the front of `s`: 16 bytes of UUID, then the
/// result VarInt.
pub open spec fn parse_config_resource_pack(s: Seq<u8>) -> Result<
    (SConfigResourcePack, Seq<u8>),
    ReadingError,
> {
    match take_u128(s) {
        Err(e) => Err(e),
        Ok((uuid, s1)) => match take_var_int(s1) {
            Err(e) => Err(e),
            Ok((result, s2)) => Ok((SConfigResourcePack { uuid, result: VarInt(result) }, s2)),
        },
    }
}

/// The bytes of a resource pack report.
pub open spec fn config_resource_pack_bytes(p: SConfigResourcePack) -> Seq<u8> {
    be_bytes(p.uuid as nat, 16) + var_int_bytes(p.result.0)
}

impl SConfigResourcePack {
    /// Decode a resource pack report from the front of `read`.
    pub fn read(read: &mut ByteReader, _version: &JavaMinecraftVersion) -> (res: Result<
        Self,
        ReadingError,
    >)
        ensures
            final(read).data() == old(read).data(),
            match parse_config_resource_pack(old(read).rest()) {
                Ok((p, rest)) => res == Ok::<Self, ReadingError>(p) && final(read).rest() == rest,
                Err(e) => res == Err::<Self, ReadingError>(e),
            },
    {
        let uuid = match read.get_u128_be() {
            Ok(v) => v,
            Err(e) => {
                return Err(e);
            },
        };
        let result = match read.get_var_int() {
            Ok(v) => v,
            Err(e) => {
                return Err(e);
            },
        };
        Ok(SConfigResourcePack { uuid, result })
    }
}

/// Decoding a written resource pack report gives it back.
pub proof fn lemma_config_resource_pack_roundtrip(p: SConfigResourcePack, rest: Seq<u8>)
    ensures
        parse_config_resource_pack(config_resource_pack_bytes(p) + rest) == Ok::<
            (SConfigResourcePack, Seq<u8>),
            ReadingError,
        >((p, rest)),
{
    let a = be_bytes(p.uuid as nat, 16);
    let b = var_int_bytes(p.result.0);
    assert((a + b) + rest =~= a + (b + rest));
    lemma_take_u128(p.uuid, b + rest);
    lemma_take_var_int(p.result.0, rest);
}

} // verus!
