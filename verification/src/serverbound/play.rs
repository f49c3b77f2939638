//! Serverbound packets of the play phase.

use vstd::prelude::*;
use vstd::utf8::*;
use crate::codec::{
    ByteReader, ReadingError, VarInt, be_bytes, bool_byte, byte_array_bytes, i16_bits, i64_bits,
    i8_byte, lemma_take_bool, lemma_take_u8, take_u8, lemma_take_byte_array, lemma_take_i16, lemma_take_i64,
    lemma_take_i8, lemma_take_string, lemma_take_var_int, string_bytes, take_bool,
    take_byte_array, take_i16, take_i64, take_i8, take_remaining, take_string, take_var_int,
    take_u32, take_u64, lemma_take_u32, lemma_take_u64, take_u128, lemma_take_u128,
    MAX_PREFIXED_LENGTH,
    var_int_bytes,
};
use crate::handshake::JavaMinecraftVersion;
use crate::math::{BlockPos, lemma_block_pos_roundtrip, packable, packed_bits, unpacked};
use crate::serverbound::{ClientInformationFields, parse_client_information, read_client_information};

verus! {

/// The largest custom payload a client may send.
pub const MAX_CUSTOM_PAYLOAD_SIZE: usize = 1048576;

/// The largest cookie payload a client may send.
pub const MAX_COOKIE_SIZE: usize = 5120;

proof fn lemma_assoc(a: Seq<u8>, b: Seq<u8>, c: Seq<u8>)
    ensures
        (a + b) + c == a + (b + c),
{
    assert((a + b) + c =~= a + (b + c));
}

/// Keeps the play connection alive by echoing the server's id.
#[derive(Debug, Clone, Copy, PartialEq, Eq, Structural)]
pub struct SKeepAlive {
    pub keep_alive_id: i64,
}

/// A `SKeepAlive` off the front of `s`, and what follows it.
pub open spec fn parse_keep_alive(s: Seq<u8>) -> Result<(SKeepAlive, Seq<u8>), ReadingError> {
    match take_i64(s) {
        Ok((v, rest)) => Ok((SKeepAlive { keep_alive_id: v }, rest)),
        Err(e) => Err(e),
    }
}

/// The bytes of a `SKeepAlive`.
pub open spec fn keep_alive_bytes(p: SKeepAlive) -> Seq<u8> {
    be_bytes(i64_bits(p.keep_alive_id), 8)
}

impl SKeepAlive {
    /// Decode the packet from the front of `read`.
    pub fn read(read: &mut ByteReader, _version: &JavaMinecraftVersion) -> (res: Result<
        Self,
        ReadingError,
    >)
        ensures
            final(read).data() == old(read).data(),
            match parse_keep_alive(old(read).rest()) {
                Ok((p, rest)) => res == Ok::<Self, ReadingError>(p) && final(read).rest() == rest,
                Err(e) => res == Err::<Self, ReadingError>(e),
            },
    {
        match read.get_i64_be() {
            Ok(v) => Ok(SKeepAlive { keep_alive_id: v }),
            Err(e) => Err(e),
        }
    }
}

/// Decoding a written `SKeepAlive`, whatever follows it, gives it back.
pub proof fn lemma_keep_alive_roundtrip(p: SKeepAlive, rest: Seq<u8>)
    ensures
        parse_keep_alive(keep_alive_bytes(p) + rest) == Ok::<(SKeepAlive, Seq<u8>), ReadingError>((p, rest)),
{
    lemma_take_i64(p.keep_alive_id, rest);
}

/// Confirms a server-initiated teleport by its id.
#[derive(Debug, Clone, Copy, PartialEq, Eq, Structural)]
pub struct SConfirmTeleport {
    pub teleport_id: VarInt,
}

/// A `SConfirmTeleport` off the front of `s`, and what follows it.
pub open spec fn parse_confirm_teleport(s: Seq<u8>) -> Result<(SConfirmTeleport, Seq<u8>), ReadingError> {
    match take_var_int(s) {
        Ok((v, rest)) => Ok((SConfirmTeleport { teleport_id: VarInt(v) }, rest)),
        Err(e) => Err(e),
    }
}

/// The bytes of a `SConfirmTeleport`.
pub open spec fn confirm_teleport_bytes(p: SConfirmTeleport) -> Seq<u8> {
    var_int_bytes(p.teleport_id.0)
}

impl SConfirmTeleport {
    /// Decode the packet from the front of `read`.
    pub fn read(read: &mut ByteReader, _version: &JavaMinecraftVersion) -> (res: Result<
        Self,
        ReadingError,
    >)
        ensures
            final(read).data() == old(read).data(),
            match parse_confirm_teleport(old(read).rest()) {
                Ok((p, rest)) => res == Ok::<Self, ReadingError>(p) && final(read).rest() == rest,
                Err(e) => res == Err::<Self, ReadingError>(e),
            },
    {
        match read.get_var_int() {
            Ok(v) => Ok(SConfirmTeleport { teleport_id: v }),
            Err(e) => Err(e),
        }
    }
}

/// Decoding a written `SConfirmTeleport`, whatever follows it, gives it back.
pub proof fn lemma_confirm_teleport_roundtrip(p: SConfirmTeleport, rest: Seq<u8>)
    ensures
        parse_confirm_teleport(confirm_teleport_bytes(p) + rest) == Ok::<(SConfirmTeleport, Seq<u8>), ReadingError>((p, rest)),
{
    lemma_take_var_int(p.teleport_id.0, rest);
}

/// The player swings the arm of the given hand.
#[derive(Debug, Clone, Copy, PartialEq, Eq, Structural)]
pub struct SSwingArm {
    pub hand: VarInt,
}

/// A `SSwingArm` off the front of `s`, and what follows it.
pub open spec fn parse_swing_arm(s: Seq<u8>) -> Result<(SSwingArm, Seq<u8>), ReadingError> {
    match take_var_int(s) {
        Ok((v, rest)) => Ok((SSwingArm { hand: VarInt(v) }, rest)),
        Err(e) => Err(e),
    }
}

/// The bytes of a `SSwingArm`.
pub open spec fn swing_arm_bytes(p: SSwingArm) -> Seq<u8> {
    var_int_bytes(p.hand.0)
}

impl SSwingArm {
    /// Decode the packet from the front of `read`.
    pub fn read(read: &mut ByteReader, _version: &JavaMinecraftVersion) -> (res: Result<
        Self,
        ReadingError,
    >)
        ensures
            final(read).data() == old(read).data(),
            match parse_swing_arm(old(read).rest()) {
                Ok((p, rest)) => res == Ok::<Self, ReadingError>(p) && final(read).rest() == rest,
                Err(e) => res == Err::<Self, ReadingError>(e),
            },
    {
        match read.get_var_int() {
            Ok(v) => Ok(SSwingArm { hand: v }),
            Err(e) => Err(e),
        }
    }
}

/// Decoding a written `SSwingArm`, whatever follows it, gives it back.
pub proof fn lemma_swing_arm_roundtrip(p: SSwingArm, rest: Seq<u8>)
    ensures
        parse_swing_arm(swing_arm_bytes(p) + rest) == Ok::<(SSwingArm, Seq<u8>), ReadingError>((p, rest)),
{
    lemma_take_var_int(p.hand.0, rest);
}

/// The movement keys the player holds, as a bit set.
#[derive(Debug, Clone, Copy, PartialEq, Eq, Structural)]
pub struct SPlayerInput {
    pub input: i8,
}

/// A `SPlayerInput` off the front of `s`, and what follows it.
pub open spec fn parse_player_input(s: Seq<u8>) -> Result<(SPlayerInput, Seq<u8>), ReadingError> {
    match take_i8(s) {
        Ok((v, rest)) => Ok((SPlayerInput { input: v }, rest)),
        Err(e) => Err(e),
    }
}

/// The bytes of a `SPlayerInput`.
pub open spec fn player_input_bytes(p: SPlayerInput) -> Seq<u8> {
    seq![i8_byte(p.input)]
}

impl SPlayerInput {
    /// Decode the packet from the front of `read`.
    pub fn read(read: &mut ByteReader, _version: &JavaMinecraftVersion) -> (res: Result<
        Self,
        ReadingError,
    >)
        ensures
            final(read).data() == old(read).data(),
            match parse_player_input(old(read).rest()) {
                Ok((p, rest)) => res == Ok::<Self, ReadingError>(p) && final(read).rest() == rest,
                Err(e) => res == Err::<Self, ReadingError>(e),
            },
    {
        match read.get_i8() {
            Ok(v) => Ok(SPlayerInput { input: v }),
            Err(e) => Err(e),
        }
    }
}

/// Decoding a written `SPlayerInput`, whatever follows it, gives it back.
pub proof fn lemma_player_input_roundtrip(p: SPlayerInput, rest: Seq<u8>)
    ensures
        parse_player_input(player_input_bytes(p) + rest) == Ok::<(SPlayerInput, Seq<u8>), ReadingError>((p, rest)),
{
    lemma_take_i8(p.input, rest);
}

/// The player selects a hotbar slot.
#[derive(Debug, Clone, Copy, PartialEq, Eq, Structural)]
pub struct SSetHeldItem {
    pub slot: i16,
}

/// A `SSetHeldItem` off the front of `s`, and what follows it.
pub open spec fn parse_set_held_item(s: Seq<u8>) -> Result<(SSetHeldItem, Seq<u8>), ReadingError> {
    match take_i16(s) {
        Ok((v, rest)) => Ok((SSetHeldItem { slot: v }, rest)),
        Err(e) => Err(e),
    }
}

/// The bytes of a `SSetHeldItem`.
pub open spec fn set_held_item_bytes(p: SSetHeldItem) -> Seq<u8> {
    be_bytes(i16_bits(p.slot), 2)
}

impl SSetHeldItem {
    /// Decode the packet from the front of `read`.
    pub fn read(read: &mut ByteReader, _version: &JavaMinecraftVersion) -> (res: Result<
        Self,
        ReadingError,
    >)
        ensures
            final(read).data() == old(read).data(),
            match parse_set_held_item(old(read).rest()) {
                Ok((p, rest)) => res == Ok::<Self, ReadingError>(p) && final(read).rest() == rest,
                Err(e) => res == Err::<Self, ReadingError>(e),
            },
    {
        match read.get_i16_be() {
            Ok(v) => Ok(SSetHeldItem { slot: v }),
            Err(e) => Err(e),
        }
    }
}

/// Decoding a written `SSetHeldItem`, whatever follows it, gives it back.
pub proof fn lemma_set_held_item_roundtrip(p: SSetHeldItem, rest: Seq<u8>)
    ensures
        parse_set_held_item(set_held_item_bytes(p) + rest) == Ok::<(SSetHeldItem, Seq<u8>), ReadingError>((p, rest)),
{
    lemma_take_i16(p.slot, rest);
}

/// The player closes the window with the given id.
#[derive(Debug, Clone, Copy, PartialEq, Eq, Structural)]
pub struct SCloseContainer {
    pub window_id: VarInt,
}

/// A `SCloseContainer` off the front of `s`, and what follows it.
pub open spec fn parse_close_container(s: Seq<u8>) -> Result<(SCloseContainer, Seq<u8>), ReadingError> {
    match take_var_int(s) {
        Ok((v, rest)) => Ok((SCloseContainer { window_id: VarInt(v) }, rest)),
        Err(e) => Err(e),
    }
}

/// The bytes of a `SCloseContainer`.
pub open spec fn close_container_bytes(p: SCloseContainer) -> Seq<u8> {
    var_int_bytes(p.window_id.0)
}

impl SCloseContainer {
    /// Decode the packet from the front of `read`.
    pub fn read(read: &mut ByteReader, _version: &JavaMinecraftVersion) -> (res: Result<
        Self,
        ReadingError,
    >)
        ensures
            final(read).data() == old(read).data(),
            match parse_close_container(old(read).rest()) {
                Ok((p, rest)) => res == Ok::<Self, ReadingError>(p) && final(read).rest() == rest,
                Err(e) => res == Err::<Self, ReadingError>(e),
            },
    {
        match read.get_var_int() {
            Ok(v) => Ok(SCloseContainer { window_id: v }),
            Err(e) => Err(e),
        }
    }
}

/// Decoding a written `SCloseContainer`, whatever follows it, gives it back.
pub proof fn lemma_close_container_roundtrip(p: SCloseContainer, rest: Seq<u8>)
    ensures
        parse_close_container(close_container_bytes(p) + rest) == Ok::<(SCloseContainer, Seq<u8>), ReadingError>((p, rest)),
{
    lemma_take_var_int(p.window_id.0, rest);
}

/// The player's ability flags (bit 1 is flying).
#[derive(Debug, Clone, Copy, PartialEq, Eq, Structural)]
pub struct SPlayerAbilities {
    pub flags: i8,
}

/// A `SPlayerAbilities` off the front of `s`, and what follows it.
pub open spec fn parse_player_abilities(s: Seq<u8>) -> Result<(SPlayerAbilities, Seq<u8>), ReadingError> {
    match take_i8(s) {
        Ok((v, rest)) => Ok((SPlayerAbilities { flags: v }, rest)),
        Err(e) => Err(e),
    }
}

/// The bytes of a `SPlayerAbilities`.
pub open spec fn player_abilities_bytes(p: SPlayerAbilities) -> Seq<u8> {
    seq![i8_byte(p.flags)]
}

impl SPlayerAbilities {
    /// Decode the packet from the front of `read`.
    pub fn read(read: &mut ByteReader, _version: &JavaMinecraftVersion) -> (res: Result<
        Self,
        ReadingError,
    >)
        ensures
            final(read).data() == old(read).data(),
            match parse_player_abilities(old(read).rest()) {
                Ok((p, rest)) => res == Ok::<Self, ReadingError>(p) && final(read).rest() == rest,
                Err(e) => res == Err::<Self, ReadingError>(e),
            },
    {
        match read.get_i8() {
            Ok(v) => Ok(SPlayerAbilities { flags: v }),
            Err(e) => Err(e),
        }
    }
}

/// Decoding a written `SPlayerAbilities`, whatever follows it, gives it back.
pub proof fn lemma_player_abilities_roundtrip(p: SPlayerAbilities, rest: Seq<u8>)
    ensures
        parse_player_abilities(player_abilities_bytes(p) + rest) == Ok::<(SPlayerAbilities, Seq<u8>), ReadingError>((p, rest)),
{
    lemma_take_i8(p.flags, rest);
}

/// A ping whose payload the server echoes back.
#[derive(Debug, Clone, Copy, PartialEq, Eq, Structural)]
pub struct SPlayPingRequest {
    pub payload: i64,
}

/// A `SPlayPingRequest` off the front of `s`, and what follows it.
pub open spec fn parse_play_ping_request(s: Seq<u8>) -> Result<(SPlayPingRequest, Seq<u8>), ReadingError> {
    match take_i64(s) {
        Ok((v, rest)) => Ok((SPlayPingRequest { payload: v }, rest)),
        Err(e) => Err(e),
    }
}

/// The bytes of a `SPlayPingRequest`.
pub open spec fn play_ping_request_bytes(p: SPlayPingRequest) -> Seq<u8> {
    be_bytes(i64_bits(p.payload), 8)
}

impl SPlayPingRequest {
    /// Decode the packet from the front of `read`.
    pub fn read(read: &mut ByteReader, _version: &JavaMinecraftVersion) -> (res: Result<
        Self,
        ReadingError,
    >)
        ensures
            final(read).data() == old(read).data(),
            match parse_play_ping_request(old(read).rest()) {
                Ok((p, rest)) => res == Ok::<Self, ReadingError>(p) && final(read).rest() == rest,
                Err(e) => res == Err::<Self, ReadingError>(e),
            },
    {
        match read.get_i64_be() {
            Ok(v) => Ok(SPlayPingRequest { payload: v }),
            Err(e) => Err(e),
        }
    }
}

/// Decoding a written `SPlayPingRequest`, whatever follows it, gives it back.
pub proof fn lemma_play_ping_request_roundtrip(p: SPlayPingRequest, rest: Seq<u8>)
    ensures
        parse_play_ping_request(play_ping_request_bytes(p) + rest) == Ok::<(SPlayPingRequest, Seq<u8>), ReadingError>((p, rest)),
{
    lemma_take_i64(p.payload, rest);
}

/// A client action: respawn or request statistics.
#[derive(Debug, Clone, Copy, PartialEq, Eq, Structural)]
pub struct SClientCommand {
    pub action_id: VarInt,
}

/// A `SClientCommand` off the front of `s`, and what follows it.
pub open spec fn parse_client_command(s: Seq<u8>) -> Result<(SClientCommand, Seq<u8>), ReadingError> {
    match take_var_int(s) {
        Ok((v, rest)) => Ok((SClientCommand { action_id: VarInt(v) }, rest)),
        Err(e) => Err(e),
    }
}

/// The bytes of a `SClientCommand`.
pub open spec fn client_command_bytes(p: SClientCommand) -> Seq<u8> {
    var_int_bytes(p.action_id.0)
}

impl SClientCommand {
    /// Decode the packet from the front of `read`.
    pub fn read(read: &mut ByteReader, _version: &JavaMinecraftVersion) -> (res: Result<
        Self,
        ReadingError,
    >)
        ensures
            final(read).data() == old(read).data(),
            match parse_client_command(old(read).rest()) {
                Ok((p, rest)) => res == Ok::<Self, ReadingError>(p) && final(read).rest() == rest,
                Err(e) => res == Err::<Self, ReadingError>(e),
            },
    {
        match read.get_var_int() {
            Ok(v) => Ok(SClientCommand { action_id: v }),
            Err(e) => Err(e),
        }
    }
}

/// Decoding a written `SClientCommand`, whatever follows it, gives it back.
pub proof fn lemma_client_command_roundtrip(p: SClientCommand, rest: Seq<u8>)
    ensures
        parse_client_command(client_command_bytes(p) + rest) == Ok::<(SClientCommand, Seq<u8>), ReadingError>((p, rest)),
{
    lemma_take_var_int(p.action_id.0, rest);
}

impl SPlayerInput {
    /// Bit of the forward key.
    pub const FORWARD: i8 = 1;
    /// Bit of the backward key.
    pub const BACKWARD: i8 = 2;
    /// Bit of the left key.
    pub const LEFT: i8 = 4;
    /// Bit of the right key.
    pub const RIGHT: i8 = 8;
    /// Bit of the jump key.
    pub const JUMP: i8 = 16;
    /// Bit of the sneak key.
    pub const SNEAK: i8 = 32;
    /// Bit of the sprint key.
    pub const SPRINT: i8 = 64;
}

/// A command the player typed, without chat signing.
pub struct SChatCommand {
    pub command: String,
}

/// A chat command off the front of `s`: its text, and what follows.
pub open spec fn parse_chat_command(s: Seq<u8>) -> Result<(Seq<char>, Seq<u8>), ReadingError> {
    take_string(s)
}

impl SChatCommand {
    /// Decode a chat command from the front of `read`.
    pub fn read(read: &mut ByteReader, _version: &JavaMinecraftVersion) -> (res: Result<
        Self,
        ReadingError,
    >)
        ensures
            final(read).data() == old(read).data(),
            match parse_chat_command(old(read).rest()) {
                Ok((command, rest)) => res matches Ok(p) && p.command@ == command
                    && final(read).rest() == rest,
                Err(e) => res matches Err(r) && r == e,
            },
    {
        match read.get_str() {
            Ok(command) => Ok(SChatCommand { command }),
            Err(e) => Err(e),
        }
    }
}

/// Decoding a written chat command gives its text back.
pub proof fn lemma_chat_command_roundtrip(command: Seq<char>, rest: Seq<u8>)
    requires
        encode_utf8(command).len() <= i32::MAX,
    ensures
        parse_chat_command(string_bytes(command) + rest) == Ok::<
            (Seq<char>, Seq<u8>),
            ReadingError,
        >((command, rest)),
{
    lemma_take_string(command, rest);
}

/// The client's settings, sent while playing.
pub struct SClientInformationPlay {
    pub locale: String,
    pub view_distance: i8,
    pub chat_mode: VarInt,
    pub chat_colors: bool,
    pub skin_parts: u8,
    pub main_hand: VarInt,
    pub text_filtering: bool,
    pub server_listing: bool,
}

impl View for SClientInformationPlay {
    type V = ClientInformationFields;

    open spec fn view(&self) -> ClientInformationFields {
        ClientInformationFields {
            locale: self.locale@,
            view_distance: self.view_distance,
            chat_mode: self.chat_mode.0,
            chat_colors: self.chat_colors,
            skin_parts: self.skin_parts,
            main_hand: self.main_hand.0,
            text_filtering: self.text_filtering,
            server_listing: self.server_listing,
        }
    }
}

impl SClientInformationPlay {
    /// Decode the client's settings from the front of `read`.
    pub fn read(read: &mut ByteReader, _version: &JavaMinecraftVersion) -> (res: Result<
        Self,
        ReadingError,
    >)
        ensures
            final(read).data() == old(read).data(),
            match parse_client_information(old(read).rest()) {
                Ok((f, rest)) => res matches Ok(p) && p@ == f && final(read).rest() == rest,
                Err(e) => res matches Err(r) && r == e,
            },
    {
        match read_client_information(read) {
            Ok(t) => Ok(
                SClientInformationPlay {
                    locale: t.0,
                    view_distance: t.1,
                    chat_mode: t.2,
                    chat_colors: t.3,
                    skin_parts: t.4,
                    main_hand: t.5,
                    text_filtering: t.6,
                    server_listing: t.7,
                },
            ),
            Err(e) => Err(e),
        }
    }
}

/// A player action such as starting to sneak, sprint or leave a bed.
#[derive(Debug, Clone, Copy, PartialEq, Eq, Structural)]
pub struct SPlayerCommand {
    pub entity_id: VarInt,
    pub action: VarInt,
    pub jump_boost: VarInt,
}

/// A player command off the front of `s`: entity id, action and jump boost
/// VarInts.
pub open spec fn parse_player_command(s: Seq<u8>) -> Result<(SPlayerCommand, Seq<u8>), ReadingError> {
    match take_var_int(s) {
        Err(e) => Err(e),
        Ok((entity_id, s1)) => match take_var_int(s1) {
            Err(e) => Err(e),
            Ok((action, s2)) => match take_var_int(s2) {
                Err(e) => Err(e),
                Ok((jump_boost, s3)) => Ok(
                    (
                        SPlayerCommand {
                            entity_id: VarInt(entity_id),
                            action: VarInt(action),
                            jump_boost: VarInt(jump_boost),
                        },
                        s3,
                    ),
                ),
            },
        },
    }
}

/// The bytes of a player command.
pub open spec fn player_command_bytes(p: SPlayerCommand) -> Seq<u8> {
    var_int_bytes(p.entity_id.0) + (var_int_bytes(p.action.0) + var_int_bytes(p.jump_boost.0))
}

impl SPlayerCommand {
    /// Decode a player command from the front of `read`.
    pub fn read(read: &mut ByteReader, _version: &JavaMinecraftVersion) -> (res: Result<
        Self,
        ReadingError,
    >)
        ensures
            final(read).data() == old(read).data(),
            match parse_player_command(old(read).rest()) {
                Ok((p, rest)) => res == Ok::<Self, ReadingError>(p) && final(read).rest() == rest,
                Err(e) => res == Err::<Self, ReadingError>(e),
            },
    {
        let entity_id = match read.get_var_int() {
            Ok(v) => v,
            Err(e) => {
                return Err(e);
            },
        };
        let action = match read.get_var_int() {
            Ok(v) => v,
            Err(e) => {
                return Err(e);
            },
        };
        let jump_boost = match read.get_var_int() {
            Ok(v) => v,
            Err(e) => {
                return Err(e);
            },
        };
        Ok(SPlayerCommand { entity_id, action, jump_boost })
    }
}

/// Decoding a written player command gives it back.
pub proof fn lemma_player_command_roundtrip(p: SPlayerCommand, rest: Seq<u8>)
    ensures
        parse_player_command(player_command_bytes(p) + rest) == Ok::<
            (SPlayerCommand, Seq<u8>),
            ReadingError,
        >((p, rest)),
{
    let a = var_int_bytes(p.entity_id.0);
    let b = var_int_bytes(p.action.0);
    let c = var_int_bytes(p.jump_boost.0);
    lemma_assoc(a, b + c, rest);
    lemma_assoc(b, c, rest);
    lemma_take_var_int(p.entity_id.0, (b + c) + rest);
    lemma_take_var_int(p.action.0, c + rest);
    lemma_take_var_int(p.jump_boost.0, rest);
}

/// Which boat paddles the player is turning.
#[derive(Debug, Clone, Copy, PartialEq, Eq, Structural)]
pub struct SPaddleBoat {
    pub left_paddle: bool,
    pub right_paddle: bool,
}

/// A paddle packet off the front of `s`: two boolean bytes.
pub open spec fn parse_paddle_boat(s: Seq<u8>) -> Result<(SPaddleBoat, Seq<u8>), ReadingError> {
    match take_bool(s) {
        Err(e) => Err(e),
        Ok((left_paddle, s1)) => match take_bool(s1) {
            Err(e) => Err(e),
            Ok((right_paddle, s2)) => Ok((SPaddleBoat { left_paddle, right_paddle }, s2)),
        },
    }
}

/// The bytes of a paddle packet.
pub open spec fn paddle_boat_bytes(p: SPaddleBoat) -> Seq<u8> {
    seq![bool_byte(p.left_paddle), bool_byte(p.right_paddle)]
}

impl SPaddleBoat {
    /// Decode a paddle packet from the front of `read`.
    pub fn read(read: &mut ByteReader, _version: &JavaMinecraftVersion) -> (res: Result<
        Self,
        ReadingError,
    >)
        ensures
            final(read).data() == old(read).data(),
            match parse_paddle_boat(old(read).rest()) {
                Ok((p, rest)) => res == Ok::<Self, ReadingError>(p) && final(read).rest() == rest,
                Err(e) => res == Err::<Self, ReadingError>(e),
            },
    {
        let left_paddle = match read.get_bool() {
            Ok(v) => v,
            Err(e) => {
                return Err(e);
            },
        };
        let right_paddle = match read.get_bool() {
            Ok(v) => v,
            Err(e) => {
                return Err(e);
            },
        };
        Ok(SPaddleBoat { left_paddle, right_paddle })
    }
}

/// Decoding a written paddle packet gives it back.
pub proof fn lemma_paddle_boat_roundtrip(p: SPaddleBoat, rest: Seq<u8>)
    ensures
        parse_paddle_boat(paddle_boat_bytes(p) + rest) == Ok::<(SPaddleBoat, Seq<u8>), ReadingError>(
            (p, rest),
        ),
{
    let a = seq![bool_byte(p.left_paddle)];
    let b = seq![bool_byte(p.right_paddle)];
    assert(paddle_boat_bytes(p) + rest =~= a + (b + rest));
    lemma_take_bool(p.left_paddle, b + rest);
    lemma_take_bool(p.right_paddle, rest);
}

/// A message on a named plugin channel while playing; the payload runs to
/// the end of the packet.
pub struct SCustomPayload {
    pub channel: String,
    pub data: Vec<u8>,
}

/// A custom payload off the front of `s`: the channel string, then every
/// remaining byte, within the payload bound.
pub open spec fn parse_custom_payload(s: Seq<u8>) -> Result<
    (Seq<char>, Seq<u8>, Seq<u8>),
    ReadingError,
> {
    match take_string(s) {
        Err(e) => Err(e),
        Ok((channel, s1)) => match take_remaining(s1, MAX_CUSTOM_PAYLOAD_SIZE as int) {
            Err(e) => Err(e),
            Ok((data, s2)) => Ok((channel, data, s2)),
        },
    }
}

impl SCustomPayload {
    /// Decode a custom payload from the front of `read`.
    pub fn read(read: &mut ByteReader, _version: &JavaMinecraftVersion) -> (res: Result<
        Self,
        ReadingError,
    >)
        ensures
            final(read).data() == old(read).data(),
            match parse_custom_payload(old(read).rest()) {
                Ok((channel, data, rest)) => res matches Ok(p) && p.channel@ == channel && p.data@
                    == data && final(read).rest() == rest,
                Err(e) => res matches Err(r) && r == e,
            },
    {
        let channel = match read.get_str() {
            Ok(v) => v,
            Err(e) => {
                return Err(e);
            },
        };
        let data = match read.read_remaining(MAX_CUSTOM_PAYLOAD_SIZE) {
            Ok(v) => v,
            Err(e) => {
                return Err(e);
            },
        };
        Ok(SCustomPayload { channel, data })
    }
}

/// Decoding a written custom payload gives back its channel and data, for
/// every payload within the bound.
pub proof fn lemma_custom_payload_roundtrip(channel: Seq<char>, data: Seq<u8>)
    requires
        encode_utf8(channel).len() <= i32::MAX,
        data.len() <= MAX_CUSTOM_PAYLOAD_SIZE,
    ensures
        parse_custom_payload(string_bytes(channel) + data) == Ok::<
            (Seq<char>, Seq<u8>, Seq<u8>),
            ReadingError,
        >((channel, data, Seq::<u8>::empty())),
{
    lemma_take_string(channel, data);
}

/// The client's answer to a cookie request: the cookie's key and its
/// payload, if the client holds one.
pub struct SCookieResponse {
    pub key: String,
    pub payload: Option<Vec<u8>>,
}

/// A cookie response off the front of `s`: the key string, a presence
/// flag, and when present a length-prefixed payload within the cookie bound.
pub open spec fn parse_cookie_response(s: Seq<u8>) -> Result<
    (Seq<char>, Option<Seq<u8>>, Seq<u8>),
    ReadingError,
> {
    match take_string(s) {
        Err(e) => Err(e),
        Ok((key, s1)) => match take_bool(s1) {
            Err(e) => Err(e),
            Ok((has_payload, s2)) => {
                if !has_payload {
                    Ok((key, None, s2))
                } else {
                    match take_byte_array(s2, MAX_COOKIE_SIZE as int) {
                        Err(e) => Err(e),
                        Ok((payload, s3)) => Ok((key, Some(payload), s3)),
                    }
                }
            },
        },
    }
}

/// The bytes of a cookie response.
pub open spec fn cookie_response_bytes(key: Seq<char>, payload: Option<Seq<u8>>) -> Seq<u8> {
    match payload {
        None => string_bytes(key) + seq![0u8],
        Some(data) => string_bytes(key) + (seq![1u8] + byte_array_bytes(data)),
    }
}

impl SCookieResponse {
    /// Decode a cookie response from the front of `read`.
    pub fn read(read: &mut ByteReader, _version: &JavaMinecraftVersion) -> (res: Result<
        Self,
        ReadingError,
    >)
        ensures
            final(read).data() == old(read).data(),
            match parse_cookie_response(old(read).rest()) {
                Ok((key, payload, rest)) => res matches Ok(p) && p.key@ == key && (match payload {
                    None => p.payload is None,
                    Some(data) => p.payload matches Some(v) && v@ == data,
                }) && final(read).rest() == rest,
                Err(e) => res matches Err(r) && r == e,
            },
    {
        let key = match read.get_str() {
            Ok(v) => v,
            Err(e) => {
                return Err(e);
            },
        };
        let has_payload = match read.get_bool() {
            Ok(v) => v,
            Err(e) => {
                return Err(e);
            },
        };
        if !has_payload {
            return Ok(SCookieResponse { key, payload: None });
        }
        match read.get_byte_array(MAX_COOKIE_SIZE) {
            Ok(data) => Ok(SCookieResponse { key, payload: Some(data) }),
            Err(e) => Err(e),
        }
    }
}

/// Decoding a written cookie response gives back its key and payload, for
/// every payload within the cookie bound.
pub proof fn lemma_cookie_response_roundtrip(
    key: Seq<char>,
    payload: Option<Seq<u8>>,
    rest: Seq<u8>,
)
    requires
        encode_utf8(key).len() <= i32::MAX,
        payload matches Some(data) ==> data.len() <= MAX_COOKIE_SIZE,
    ensures
        parse_cookie_response(cookie_response_bytes(key, payload) + rest) == Ok::<
            (Seq<char>, Option<Seq<u8>>, Seq<u8>),
            ReadingError,
        >((key, payload, rest)),
{
    let a = string_bytes(key);
    match payload {
        None => {
            lemma_assoc(a, seq![0u8], rest);
            lemma_take_string(key, seq![0u8] + rest);
            lemma_take_bool(false, rest);
        },
        Some(data) => {
            let b = seq![1u8];
            let c = byte_array_bytes(data);
            lemma_assoc(a, b + c, rest);
            lemma_assoc(b, c, rest);
            lemma_take_string(key, (b + c) + rest);
            lemma_take_bool(true, c + rest);
            lemma_take_byte_array(data, MAX_COOKIE_SIZE as int, rest);
        },
    }
}

/// The bytes of a packed block position.
pub open spec fn block_pos_bytes(p: BlockPos) -> Seq<u8> {
    be_bytes(i64_bits(packed_bits(p.x, p.y, p.z) as i64), 8)
}

/// The player digs, drops or swaps: the action, the block it targets, the
/// face it targets and the client's sequence number.
#[derive(Debug, Clone, Copy, PartialEq, Eq, Structural)]
pub struct SPlayerAction {
    pub status: VarInt,
    pub location: BlockPos,
    pub face: u8,
    pub sequence: VarInt,
}

/// A player action off the front of `s`: status VarInt, packed position,
/// face byte, sequence VarInt.
pub open spec fn parse_player_action(s: Seq<u8>) -> Result<(SPlayerAction, Seq<u8>), ReadingError> {
    match take_var_int(s) {
        Err(e) => Err(e),
        Ok((status, s1)) => match take_i64(s1) {
            Err(e) => Err(e),
            Ok((location, s2)) => match take_u8(s2) {
                Err(e) => Err(e),
                Ok((face, s3)) => match take_var_int(s3) {
                    Err(e) => Err(e),
                    Ok((sequence, s4)) => Ok(
                        (
                            SPlayerAction {
                                status: VarInt(status),
                                location: unpacked(location),
                                face,
                                sequence: VarInt(sequence),
                            },
                            s4,
                        ),
                    ),
                },
            },
        },
    }
}

/// The bytes of a player action.
pub open spec fn player_action_bytes(p: SPlayerAction) -> Seq<u8> {
    var_int_bytes(p.status.0) + (block_pos_bytes(p.location) + (seq![p.face] + var_int_bytes(
        p.sequence.0,
    )))
}

impl SPlayerAction {
    /// Decode a player action from the front of `read`.
    pub fn read(read: &mut ByteReader, _version: &JavaMinecraftVersion) -> (res: Result<
        Self,
        ReadingError,
    >)
        ensures
            final(read).data() == old(read).data(),
            match parse_player_action(old(read).rest()) {
                Ok((p, rest)) => res == Ok::<Self, ReadingError>(p) && final(read).rest() == rest,
                Err(e) => res == Err::<Self, ReadingError>(e),
            },
    {
        let status = match read.get_var_int() {
            Ok(v) => v,
            Err(e) => {
                return Err(e);
            },
        };
        let location = match read.get_i64_be() {
            Ok(v) => BlockPos::from_i64(v),
            Err(e) => {
                return Err(e);
            },
        };
        let face = match read.get_u8() {
            Ok(v) => v,
            Err(e) => {
                return Err(e);
            },
        };
        let sequence = match read.get_var_int() {
            Ok(v) => v,
            Err(e) => {
                return Err(e);
            },
        };
        Ok(SPlayerAction { status, location, face, sequence })
    }
}

/// Decoding a written player action gives it back, for every position the
/// packing holds.
pub proof fn lemma_player_action_roundtrip(p: SPlayerAction, rest: Seq<u8>)
    requires
        packable(p.location.x, p.location.y, p.location.z),
    ensures
        parse_player_action(player_action_bytes(p) + rest) == Ok::<
            (SPlayerAction, Seq<u8>),
            ReadingError,
        >((p, rest)),
{
    let a = var_int_bytes(p.status.0);
    let b = block_pos_bytes(p.location);
    let c = seq![p.face];
    let d = var_int_bytes(p.sequence.0);
    lemma_assoc(a, b + (c + d), rest);
    lemma_assoc(b, c + d, rest);
    lemma_assoc(c, d, rest);
    lemma_take_var_int(p.status.0, (b + (c + d)) + rest);
    lemma_take_i64(packed_bits(p.location.x, p.location.y, p.location.z) as i64, (c + d) + rest);
    lemma_block_pos_roundtrip(p.location.x, p.location.y, p.location.z);
    lemma_take_u8(p.face, d + rest);
    lemma_take_var_int(p.sequence.0, rest);
}

/// The player picks the item of a block, with or without its data.
#[derive(Debug, Clone, Copy, PartialEq, Eq, Structural)]
pub struct SPickItemFromBlock {
    pub pos: BlockPos,
    pub include_data: bool,
}

/// A pick-block packet off the front of `s`: packed position, then a
/// boolean byte.
pub open spec fn parse_pick_item_from_block(s: Seq<u8>) -> Result<
    (SPickItemFromBlock, Seq<u8>),
    ReadingError,
> {
    match take_i64(s) {
        Err(e) => Err(e),
        Ok((pos, s1)) => match take_bool(s1) {
            Err(e) => Err(e),
            Ok((include_data, s2)) => Ok(
                (SPickItemFromBlock { pos: unpacked(pos), include_data }, s2),
            ),
        },
    }
}

/// The bytes of a pick-block packet.
pub open spec fn pick_item_from_block_bytes(p: SPickItemFromBlock) -> Seq<u8> {
    block_pos_bytes(p.pos) + seq![bool_byte(p.include_data)]
}

impl SPickItemFromBlock {
    /// Decode a pick-block packet from the front of `read`.
    pub fn read(read: &mut ByteReader, _version: &JavaMinecraftVersion) -> (res: Result<
        Self,
        ReadingError,
    >)
        ensures
            final(read).data() == old(read).data(),
            match parse_pick_item_from_block(old(read).rest()) {
                Ok((p, rest)) => res == Ok::<Self, ReadingError>(p) && final(read).rest() == rest,
                Err(e) => res == Err::<Self, ReadingError>(e),
            },
    {
        let pos = match read.get_i64_be() {
            Ok(v) => BlockPos::from_i64(v),
            Err(e) => {
                return Err(e);
            },
        };
        let include_data = match read.get_bool() {
            Ok(v) => v,
            Err(e) => {
                return Err(e);
            },
        };
        Ok(SPickItemFromBlock { pos, include_data })
    }
}

/// Decoding a written pick-block packet gives it back, for every position
/// the packing holds.
pub proof fn lemma_pick_item_from_block_roundtrip(p: SPickItemFromBlock, rest: Seq<u8>)
    requires
        packable(p.pos.x, p.pos.y, p.pos.z),
    ensures
        parse_pick_item_from_block(pick_item_from_block_bytes(p) + rest) == Ok::<
            (SPickItemFromBlock, Seq<u8>),
            ReadingError,
        >((p, rest)),
{
    let a = block_pos_bytes(p.pos);
    let b = seq![bool_byte(p.include_data)];
    lemma_assoc(a, b, rest);
    lemma_take_i64(packed_bits(p.pos.x, p.pos.y, p.pos.z) as i64, b + rest);
    lemma_block_pos_roundtrip(p.pos.x, p.pos.y, p.pos.z);
    lemma_take_bool(p.include_data, rest);
}

/// The player moved: the bit patterns of the `f64` coordinates and the collision flags.
#[derive(Debug, Clone, Copy, PartialEq, Eq, Structural)]
pub struct SPlayerPosition {
    /// Bit pattern of the `f64` x coordinate.
    pub x_bits: u64,
    /// Bit pattern of the `f64` y coordinate.
    pub y_bits: u64,
    /// Bit pattern of the `f64` z coordinate.
    pub z_bits: u64,
    /// Collision flags (bit 0: on ground, bit 1: against a wall).
    pub collision: u8,
}

/// A `SPlayerPosition` off the front of `s`: three big-endian `f64` coordinates and a flags byte.
pub open spec fn parse_player_position(s: Seq<u8>) -> Result<(SPlayerPosition, Seq<u8>), ReadingError> {
    match take_u64(s) {
        Err(e) => Err(e),
        Ok((v0, s1)) => {
            match take_u64(s1) {
                Err(e) => Err(e),
                Ok((v1, s2)) => {
                    match take_u64(s2) {
                        Err(e) => Err(e),
                        Ok((v2, s3)) => {
                            match take_u8(s3) {
                                Err(e) => Err(e),
                                Ok((v3, s4)) => {
                                    Ok((SPlayerPosition { x_bits: v0, y_bits: v1, z_bits: v2, collision: v3 }, s4))
                                },
                            }
                        },
                    }
                },
            }
        },
    }
}

/// The bytes of a `SPlayerPosition`.
pub open spec fn player_position_bytes(p: SPlayerPosition) -> Seq<u8> {
    be_bytes(p.x_bits as nat, 8) + (be_bytes(p.y_bits as nat, 8) + (be_bytes(p.z_bits as nat, 8) + (seq![p.collision])))
}

impl SPlayerPosition {
    /// Decode the packet from the front of `read`.
    pub fn read(read: &mut ByteReader, _version: &JavaMinecraftVersion) -> (res: Result<
        Self,
        ReadingError,
    >)
        ensures
            final(read).data() == old(read).data(),
            match parse_player_position(old(read).rest()) {
                Ok((p, rest)) => res == Ok::<Self, ReadingError>(p) && final(read).rest() == rest,
                Err(e) => res == Err::<Self, ReadingError>(e),
            },
    {
        let x_bits = match read.get_u64_be() {
            Ok(v) => v,
            Err(e) => {
                return Err(e);
            },
        };
        let y_bits = match read.get_u64_be() {
            Ok(v) => v,
            Err(e) => {
                return Err(e);
            },
        };
        let z_bits = match read.get_u64_be() {
            Ok(v) => v,
            Err(e) => {
                return Err(e);
            },
        };
        let collision = match read.get_u8() {
            Ok(v) => v,
            Err(e) => {
                return Err(e);
            },
        };
        Ok(SPlayerPosition { x_bits, y_bits, z_bits, collision })
    }
}

/// Decoding a written `SPlayerPosition`, whatever follows it, gives it back.
pub proof fn lemma_player_position_roundtrip(p: SPlayerPosition, rest: Seq<u8>)
    ensures
        parse_player_position(player_position_bytes(p) + rest) == Ok::<(SPlayerPosition, Seq<u8>), ReadingError>((p, rest)),
{
    let a0 = be_bytes(p.x_bits as nat, 8);
    let a1 = be_bytes(p.y_bits as nat, 8);
    let a2 = be_bytes(p.z_bits as nat, 8);
    let a3 = seq![p.collision];
    let t3 = a3;
    let t2 = a2 + t3;
    let t1 = a1 + t2;
    let t0 = a0 + t1;
    lemma_assoc(a0, t1, rest);
    lemma_assoc(a1, t2, rest);
    lemma_assoc(a2, t3, rest);
    lemma_take_u64(p.x_bits, t1 + rest);
    lemma_take_u64(p.y_bits, t2 + rest);
    lemma_take_u64(p.z_bits, t3 + rest);
    lemma_take_u8(p.collision, rest);
}

/// The player turned: the bit patterns of the `f32` angles and the collision flags.
#[derive(Debug, Clone, Copy, PartialEq, Eq, Structural)]
pub struct SPlayerRotation {
    /// Bit pattern of the `f32` yaw.
    pub yaw_bits: u32,
    /// Bit pattern of the `f32` pitch.
    pub pitch_bits: u32,
    /// Collision flags.
    pub collision: u8,
}

/// A `SPlayerRotation` off the front of `s`: big-endian `f32` yaw and pitch and a flags byte.
pub open spec fn parse_player_rotation(s: Seq<u8>) -> Result<(SPlayerRotation, Seq<u8>), ReadingError> {
    match take_u32(s) {
        Err(e) => Err(e),
        Ok((v0, s1)) => {
            match take_u32(s1) {
                Err(e) => Err(e),
                Ok((v1, s2)) => {
                    match take_u8(s2) {
                        Err(e) => Err(e),
                        Ok((v2, s3)) => {
                            Ok((SPlayerRotation { yaw_bits: v0, pitch_bits: v1, collision: v2 }, s3))
                        },
                    }
                },
            }
        },
    }
}

/// The bytes of a `SPlayerRotation`.
pub open spec fn player_rotation_bytes(p: SPlayerRotation) -> Seq<u8> {
    be_bytes(p.yaw_bits as nat, 4) + (be_bytes(p.pitch_bits as nat, 4) + (seq![p.collision]))
}

impl SPlayerRotation {
    /// Decode the packet from the front of `read`.
    pub fn read(read: &mut ByteReader, _version: &JavaMinecraftVersion) -> (res: Result<
        Self,
        ReadingError,
    >)
        ensures
            final(read).data() == old(read).data(),
            match parse_player_rotation(old(read).rest()) {
                Ok((p, rest)) => res == Ok::<Self, ReadingError>(p) && final(read).rest() == rest,
                Err(e) => res == Err::<Self, ReadingError>(e),
            },
    {
        let yaw_bits = match read.get_u32_be() {
            Ok(v) => v,
            Err(e) => {
                return Err(e);
            },
        };
        let pitch_bits = match read.get_u32_be() {
            Ok(v) => v,
            Err(e) => {
                return Err(e);
            },
        };
        let collision = match read.get_u8() {
            Ok(v) => v,
            Err(e) => {
                return Err(e);
            },
        };
        Ok(SPlayerRotation { yaw_bits, pitch_bits, collision })
    }
}

/// Decoding a written `SPlayerRotation`, whatever follows it, gives it back.
pub proof fn lemma_player_rotation_roundtrip(p: SPlayerRotation, rest: Seq<u8>)
    ensures
        parse_player_rotation(player_rotation_bytes(p) + rest) == Ok::<(SPlayerRotation, Seq<u8>), ReadingError>((p, rest)),
{
    let a0 = be_bytes(p.yaw_bits as nat, 4);
    let a1 = be_bytes(p.pitch_bits as nat, 4);
    let a2 = seq![p.collision];
    let t2 = a2;
    let t1 = a1 + t2;
    let t0 = a0 + t1;
    lemma_assoc(a0, t1, rest);
    lemma_assoc(a1, t2, rest);
    lemma_take_u32(p.yaw_bits, t1 + rest);
    lemma_take_u32(p.pitch_bits, t2 + rest);
    lemma_take_u8(p.collision, rest);
}

/// The player moved and turned.
#[derive(Debug, Clone, Copy, PartialEq, Eq, Structural)]
pub struct SPlayerPositionRotation {
    /// Bit pattern of the `f64` x coordinate.
    pub x_bits: u64,
    /// Bit pattern of the `f64` y coordinate.
    pub y_bits: u64,
    /// Bit pattern of the `f64` z coordinate.
    pub z_bits: u64,
    /// Bit pattern of the `f32` yaw.
    pub yaw_bits: u32,
    /// Bit pattern of the `f32` pitch.
    pub pitch_bits: u32,
    /// Collision flags.
    pub collision: u8,
}

/// A `SPlayerPositionRotation` off the front of `s`: three big-endian `f64` coordinates, `f32` yaw and pitch, and a flags byte.
pub open spec fn parse_player_position_rotation(s: Seq<u8>) -> Result<(SPlayerPositionRotation, Seq<u8>), ReadingError> {
    match take_u64(s) {
        Err(e) => Err(e),
        Ok((v0, s1)) => {
            match take_u64(s1) {
                Err(e) => Err(e),
                Ok((v1, s2)) => {
                    match take_u64(s2) {
                        Err(e) => Err(e),
                        Ok((v2, s3)) => {
                            match take_u32(s3) {
                                Err(e) => Err(e),
                                Ok((v3, s4)) => {
                                    match take_u32(s4) {
                                        Err(e) => Err(e),
                                        Ok((v4, s5)) => {
                                            match take_u8(s5) {
                                                Err(e) => Err(e),
                                                Ok((v5, s6)) => {
                                                    Ok((SPlayerPositionRotation { x_bits: v0, y_bits: v1, z_bits: v2, yaw_bits: v3, pitch_bits: v4, collision: v5 }, s6))
                                                },
                                            }
                                        },
                                    }
                                },
                            }
                        },
                    }
                },
            }
        },
    }
}

/// The bytes of a `SPlayerPositionRotation`.
pub open spec fn player_position_rotation_bytes(p: SPlayerPositionRotation) -> Seq<u8> {
    be_bytes(p.x_bits as nat, 8) + (be_bytes(p.y_bits as nat, 8) + (be_bytes(p.z_bits as nat, 8) + (be_bytes(p.yaw_bits as nat, 4) + (be_bytes(p.pitch_bits as nat, 4) + (seq![p.collision])))))
}

impl SPlayerPositionRotation {
    /// Decode the packet from the front of `read`.
    pub fn read(read: &mut ByteReader, _version: &JavaMinecraftVersion) -> (res: Result<
        Self,
        ReadingError,
    >)
        ensures
            final(read).data() == old(read).data(),
            match parse_player_position_rotation(old(read).rest()) {
                Ok((p, rest)) => res == Ok::<Self, ReadingError>(p) && final(read).rest() == rest,
                Err(e) => res == Err::<Self, ReadingError>(e),
            },
    {
        let x_bits = match read.get_u64_be() {
            Ok(v) => v,
            Err(e) => {
                return Err(e);
            },
        };
        let y_bits = match read.get_u64_be() {
            Ok(v) => v,
            Err(e) => {
                return Err(e);
            },
        };
        let z_bits = match read.get_u64_be() {
            Ok(v) => v,
            Err(e) => {
                return Err(e);
            },
        };
        let yaw_bits = match read.get_u32_be() {
            Ok(v) => v,
            Err(e) => {
                return Err(e);
            },
        };
        let pitch_bits = match read.get_u32_be() {
            Ok(v) => v,
            Err(e) => {
                return Err(e);
            },
        };
        let collision = match read.get_u8() {
            Ok(v) => v,
            Err(e) => {
                return Err(e);
            },
        };
        Ok(SPlayerPositionRotation { x_bits, y_bits, z_bits, yaw_bits, pitch_bits, collision })
    }
}

/// Decoding a written `SPlayerPositionRotation`, whatever follows it, gives it back.
pub proof fn lemma_player_position_rotation_roundtrip(p: SPlayerPositionRotation, rest: Seq<u8>)
    ensures
        parse_player_position_rotation(player_position_rotation_bytes(p) + rest) == Ok::<(SPlayerPositionRotation, Seq<u8>), ReadingError>((p, rest)),
{
    let a0 = be_bytes(p.x_bits as nat, 8);
    let a1 = be_bytes(p.y_bits as nat, 8);
    let a2 = be_bytes(p.z_bits as nat, 8);
    let a3 = be_bytes(p.yaw_bits as nat, 4);
    let a4 = be_bytes(p.pitch_bits as nat, 4);
    let a5 = seq![p.collision];
    let t5 = a5;
    let t4 = a4 + t5;
    let t3 = a3 + t4;
    let t2 = a2 + t3;
    let t1 = a1 + t2;
    let t0 = a0 + t1;
    lemma_assoc(a0, t1, rest);
    lemma_assoc(a1, t2, rest);
    lemma_assoc(a2, t3, rest);
    lemma_assoc(a3, t4, rest);
    lemma_assoc(a4, t5, rest);
    lemma_take_u64(p.x_bits, t1 + rest);
    lemma_take_u64(p.y_bits, t2 + rest);
    lemma_take_u64(p.z_bits, t3 + rest);
    lemma_take_u32(p.yaw_bits, t4 + rest);
    lemma_take_u32(p.pitch_bits, t5 + rest);
    lemma_take_u8(p.collision, rest);
}

/// Whether the player stands on the ground, and its collision flags.
#[derive(Debug, Clone, Copy, PartialEq, Eq, Structural)]
pub struct SSetPlayerGround {
    pub on_ground: bool,
    pub collision: u8,
}

/// A `SSetPlayerGround` off the front of `s`: a boolean byte and a flags byte.
pub open spec fn parse_set_player_ground(s: Seq<u8>) -> Result<(SSetPlayerGround, Seq<u8>), ReadingError> {
    match take_bool(s) {
        Err(e) => Err(e),
        Ok((v0, s1)) => {
            match take_u8(s1) {
                Err(e) => Err(e),
                Ok((v1, s2)) => {
                    Ok((SSetPlayerGround { on_ground: v0, collision: v1 }, s2))
                },
            }
        },
    }
}

/// The bytes of a `SSetPlayerGround`.
pub open spec fn set_player_ground_bytes(p: SSetPlayerGround) -> Seq<u8> {
    seq![bool_byte(p.on_ground)] + (seq![p.collision])
}

impl SSetPlayerGround {
    /// Decode the packet from the front of `read`.
    pub fn read(read: &mut ByteReader, _version: &JavaMinecraftVersion) -> (res: Result<
        Self,
        ReadingError,
    >)
        ensures
            final(read).data() == old(read).data(),
            match parse_set_player_ground(old(read).rest()) {
                Ok((p, rest)) => res == Ok::<Self, ReadingError>(p) && final(read).rest() == rest,
                Err(e) => res == Err::<Self, ReadingError>(e),
            },
    {
        let on_ground = match read.get_bool() {
            Ok(v) => v,
            Err(e) => {
                return Err(e);
            },
        };
        let collision = match read.get_u8() {
            Ok(v) => v,
            Err(e) => {
                return Err(e);
            },
        };
        Ok(SSetPlayerGround { on_ground, collision })
    }
}

/// Decoding a written `SSetPlayerGround`, whatever follows it, gives it back.
pub proof fn lemma_set_player_ground_roundtrip(p: SSetPlayerGround, rest: Seq<u8>)
    ensures
        parse_set_player_ground(set_player_ground_bytes(p) + rest) == Ok::<(SSetPlayerGround, Seq<u8>), ReadingError>((p, rest)),
{
    let a0 = seq![bool_byte(p.on_ground)];
    let a1 = seq![p.collision];
    let t1 = a1;
    let t0 = a0 + t1;
    lemma_assoc(a0, t1, rest);
    lemma_take_bool(p.on_ground, t1 + rest);
    lemma_take_u8(p.collision, rest);
}

/// The player uses the item in a hand on a block face.
#[derive(Debug, Clone, Copy, PartialEq, Eq, Structural)]
pub struct SUseItemOn {
    pub hand: VarInt,
    pub location: BlockPos,
    pub face: VarInt,
    /// Bit pattern of the `f32` cursor x within the block.
    pub cursor_x_bits: u32,
    /// Bit pattern of the `f32` cursor y within the block.
    pub cursor_y_bits: u32,
    /// Bit pattern of the `f32` cursor z within the block.
    pub cursor_z_bits: u32,
    pub inside_block: bool,
    pub is_against_world_border: bool,
    pub sequence: VarInt,
}

/// A `SUseItemOn` off the front of `s`: hand VarInt, packed position, face VarInt, three big-endian `f32` cursor coordinates, two boolean bytes and a sequence VarInt.
pub open spec fn parse_use_item_on(s: Seq<u8>) -> Result<(SUseItemOn, Seq<u8>), ReadingError> {
    match take_var_int(s) {
        Err(e) => Err(e),
        Ok((v0, s1)) => {
            match take_i64(s1) {
                Err(e) => Err(e),
                Ok((v1, s2)) => {
                    match take_var_int(s2) {
                        Err(e) => Err(e),
                        Ok((v2, s3)) => {
                            match take_u32(s3) {
                                Err(e) => Err(e),
                                Ok((v3, s4)) => {
                                    match take_u32(s4) {
                                        Err(e) => Err(e),
                                        Ok((v4, s5)) => {
                                            match take_u32(s5) {
                                                Err(e) => Err(e),
                                                Ok((v5, s6)) => {
                                                    match take_bool(s6) {
                                                        Err(e) => Err(e),
                                                        Ok((v6, s7)) => {
                                                            match take_bool(s7) {
                                                                Err(e) => Err(e),
                                                                Ok((v7, s8)) => {
                                                                    match take_var_int(s8) {
                                                                        Err(e) => Err(e),
                                                                        Ok((v8, s9)) => {
                                                                            Ok((SUseItemOn { hand: VarInt(v0), location: unpacked(v1), face: VarInt(v2), cursor_x_bits: v3, cursor_y_bits: v4, cursor_z_bits: v5, inside_block: v6, is_against_world_border: v7, sequence: VarInt(v8) }, s9))
                                                                        },
                                                                    }
                                                                },
                                                            }
                                                        },
                                                    }
                                                },
                                            }
                                        },
                                    }
                                },
                            }
                        },
                    }
                },
            }
        },
    }
}

/// The bytes of a `SUseItemOn`.
pub open spec fn use_item_on_bytes(p: SUseItemOn) -> Seq<u8> {
    var_int_bytes(p.hand.0) + (block_pos_bytes(p.location) + (var_int_bytes(p.face.0) + (be_bytes(p.cursor_x_bits as nat, 4) + (be_bytes(p.cursor_y_bits as nat, 4) + (be_bytes(p.cursor_z_bits as nat, 4) + (seq![bool_byte(p.inside_block)] + (seq![bool_byte(p.is_against_world_border)] + (var_int_bytes(p.sequence.0)))))))))
}

impl SUseItemOn {
    /// Decode the packet from the front of `read`.
    pub fn read(read: &mut ByteReader, _version: &JavaMinecraftVersion) -> (res: Result<
        Self,
        ReadingError,
    >)
        ensures
            final(read).data() == old(read).data(),
            match parse_use_item_on(old(read).rest()) {
                Ok((p, rest)) => res == Ok::<Self, ReadingError>(p) && final(read).rest() == rest,
                Err(e) => res == Err::<Self, ReadingError>(e),
            },
    {
        let hand = match read.get_var_int() {
            Ok(v) => v,
            Err(e) => {
                return Err(e);
            },
        };
        let location = match read.get_i64_be() {
            Ok(v) => BlockPos::from_i64(v),
            Err(e) => {
                return Err(e);
            },
        };
        let face = match read.get_var_int() {
            Ok(v) => v,
            Err(e) => {
                return Err(e);
            },
        };
        let cursor_x_bits = match read.get_u32_be() {
            Ok(v) => v,
            Err(e) => {
                return Err(e);
            },
        };
        let cursor_y_bits = match read.get_u32_be() {
            Ok(v) => v,
            Err(e) => {
                return Err(e);
            },
        };
        let cursor_z_bits = match read.get_u32_be() {
            Ok(v) => v,
            Err(e) => {
                return Err(e);
            },
        };
        let inside_block = match read.get_bool() {
            Ok(v) => v,
            Err(e) => {
                return Err(e);
            },
        };
        let is_against_world_border = match read.get_bool() {
            Ok(v) => v,
            Err(e) => {
                return Err(e);
            },
        };
        let sequence = match read.get_var_int() {
            Ok(v) => v,
            Err(e) => {
                return Err(e);
            },
        };
        Ok(SUseItemOn { hand, location, face, cursor_x_bits, cursor_y_bits, cursor_z_bits, inside_block, is_against_world_border, sequence })
    }
}

/// Decoding a written `SUseItemOn`, whatever follows it, gives it back, for every position the packing holds.
pub proof fn lemma_use_item_on_roundtrip(p: SUseItemOn, rest: Seq<u8>)
    requires
        packable(p.location.x, p.location.y, p.location.z),
    ensures
        parse_use_item_on(use_item_on_bytes(p) + rest) == Ok::<(SUseItemOn, Seq<u8>), ReadingError>((p, rest)),
{
    let a0 = var_int_bytes(p.hand.0);
    let a1 = block_pos_bytes(p.location);
    let a2 = var_int_bytes(p.face.0);
    let a3 = be_bytes(p.cursor_x_bits as nat, 4);
    let a4 = be_bytes(p.cursor_y_bits as nat, 4);
    let a5 = be_bytes(p.cursor_z_bits as nat, 4);
    let a6 = seq![bool_byte(p.inside_block)];
    let a7 = seq![bool_byte(p.is_against_world_border)];
    let a8 = var_int_bytes(p.sequence.0);
    let t8 = a8;
    let t7 = a7 + t8;
    let t6 = a6 + t7;
    let t5 = a5 + t6;
    let t4 = a4 + t5;
    let t3 = a3 + t4;
    let t2 = a2 + t3;
    let t1 = a1 + t2;
    let t0 = a0 + t1;
    lemma_assoc(a0, t1, rest);
    lemma_assoc(a1, t2, rest);
    lemma_assoc(a2, t3, rest);
    lemma_assoc(a3, t4, rest);
    lemma_assoc(a4, t5, rest);
    lemma_assoc(a5, t6, rest);
    lemma_assoc(a6, t7, rest);
    lemma_assoc(a7, t8, rest);
    lemma_take_var_int(p.hand.0, t1 + rest);
    lemma_take_i64(packed_bits(p.location.x, p.location.y, p.location.z) as i64, t2 + rest);
    lemma_block_pos_roundtrip(p.location.x, p.location.y, p.location.z);
    lemma_take_var_int(p.face.0, t3 + rest);
    lemma_take_u32(p.cursor_x_bits, t4 + rest);
    lemma_take_u32(p.cursor_y_bits, t5 + rest);
    lemma_take_u32(p.cursor_z_bits, t6 + rest);
    lemma_take_bool(p.inside_block, t7 + rest);
    lemma_take_bool(p.is_against_world_border, t8 + rest);
    lemma_take_var_int(p.sequence.0, rest);
}

/// The player uses the item in a hand, looking in a direction.
#[derive(Debug, Clone, Copy, PartialEq, Eq, Structural)]
pub struct SUseItem {
    pub hand: VarInt,
    pub sequence: VarInt,
    /// Bit pattern of the `f32` yaw.
    pub yaw_bits: u32,
    /// Bit pattern of the `f32` pitch.
    pub pitch_bits: u32,
}

/// A `SUseItem` off the front of `s`: hand and sequence VarInts, then big-endian `f32` yaw and pitch.
pub open spec fn parse_use_item(s: Seq<u8>) -> Result<(SUseItem, Seq<u8>), ReadingError> {
    match take_var_int(s) {
        Err(e) => Err(e),
        Ok((v0, s1)) => {
            match take_var_int(s1) {
                Err(e) => Err(e),
                Ok((v1, s2)) => {
                    match take_u32(s2) {
                        Err(e) => Err(e),
                        Ok((v2, s3)) => {
                            match take_u32(s3) {
                                Err(e) => Err(e),
                                Ok((v3, s4)) => {
                                    Ok((SUseItem { hand: VarInt(v0), sequence: VarInt(v1), yaw_bits: v2, pitch_bits: v3 }, s4))
                                },
                            }
                        },
                    }
                },
            }
        },
    }
}

/// The bytes of a `SUseItem`.
pub open spec fn use_item_bytes(p: SUseItem) -> Seq<u8> {
    var_int_bytes(p.hand.0) + (var_int_bytes(p.sequence.0) + (be_bytes(p.yaw_bits as nat, 4) + (be_bytes(p.pitch_bits as nat, 4))))
}

impl SUseItem {
    /// Decode the packet from the front of `read`.
    pub fn read(read: &mut ByteReader, _version: &JavaMinecraftVersion) -> (res: Result<
        Self,
        ReadingError,
    >)
        ensures
            final(read).data() == old(read).data(),
            match parse_use_item(old(read).rest()) {
                Ok((p, rest)) => res == Ok::<Self, ReadingError>(p) && final(read).rest() == rest,
                Err(e) => res == Err::<Self, ReadingError>(e),
            },
    {
        let hand = match read.get_var_int() {
            Ok(v) => v,
            Err(e) => {
                return Err(e);
            },
        };
        let sequence = match read.get_var_int() {
            Ok(v) => v,
            Err(e) => {
                return Err(e);
            },
        };
        let yaw_bits = match read.get_u32_be() {
            Ok(v) => v,
            Err(e) => {
                return Err(e);
            },
        };
        let pitch_bits = match read.get_u32_be() {
            Ok(v) => v,
            Err(e) => {
                return Err(e);
            },
        };
        Ok(SUseItem { hand, sequence, yaw_bits, pitch_bits })
    }
}

/// Decoding a written `SUseItem`, whatever follows it, gives it back.
pub proof fn lemma_use_item_roundtrip(p: SUseItem, rest: Seq<u8>)
    ensures
        parse_use_item(use_item_bytes(p) + rest) == Ok::<(SUseItem, Seq<u8>), ReadingError>((p, rest)),
{
    let a0 = var_int_bytes(p.hand.0);
    let a1 = var_int_bytes(p.sequence.0);
    let a2 = be_bytes(p.yaw_bits as nat, 4);
    let a3 = be_bytes(p.pitch_bits as nat, 4);
    let t3 = a3;
    let t2 = a2 + t3;
    let t1 = a1 + t2;
    let t0 = a0 + t1;
    lemma_assoc(a0, t1, rest);
    lemma_assoc(a1, t2, rest);
    lemma_assoc(a2, t3, rest);
    lemma_take_var_int(p.hand.0, t1 + rest);
    lemma_take_var_int(p.sequence.0, t2 + rest);
    lemma_take_u32(p.yaw_bits, t3 + rest);
    lemma_take_u32(p.pitch_bits, rest);
}

/// The vehicle the player rides moved.
#[derive(Debug, Clone, Copy, PartialEq, Eq, Structural)]
pub struct SMoveVehicle {
    /// Bit pattern of the `f64` x coordinate.
    pub x_bits: u64,
    /// Bit pattern of the `f64` y coordinate.
    pub y_bits: u64,
    /// Bit pattern of the `f64` z coordinate.
    pub z_bits: u64,
    /// Bit pattern of the `f32` yaw.
    pub yaw_bits: u32,
    /// Bit pattern of the `f32` pitch.
    pub pitch_bits: u32,
}

/// A `SMoveVehicle` off the front of `s`: three big-endian `f64` coordinates, then `f32` yaw and pitch.
pub open spec fn parse_move_vehicle(s: Seq<u8>) -> Result<(SMoveVehicle, Seq<u8>), ReadingError> {
    match take_u64(s) {
        Err(e) => Err(e),
        Ok((v0, s1)) => {
            match take_u64(s1) {
                Err(e) => Err(e),
                Ok((v1, s2)) => {
                    match take_u64(s2) {
                        Err(e) => Err(e),
                        Ok((v2, s3)) => {
                            match take_u32(s3) {
                                Err(e) => Err(e),
                                Ok((v3, s4)) => {
                                    match take_u32(s4) {
                                        Err(e) => Err(e),
                                        Ok((v4, s5)) => {
                                            Ok((SMoveVehicle { x_bits: v0, y_bits: v1, z_bits: v2, yaw_bits: v3, pitch_bits: v4 }, s5))
                                        },
                                    }
                                },
                            }
                        },
                    }
                },
            }
        },
    }
}

/// The bytes of a `SMoveVehicle`.
pub open spec fn move_vehicle_bytes(p: SMoveVehicle) -> Seq<u8> {
    be_bytes(p.x_bits as nat, 8) + (be_bytes(p.y_bits as nat, 8) + (be_bytes(p.z_bits as nat, 8) + (be_bytes(p.yaw_bits as nat, 4) + (be_bytes(p.pitch_bits as nat, 4)))))
}

impl SMoveVehicle {
    /// Decode the packet from the front of `read`.
    pub fn read(read: &mut ByteReader, _version: &JavaMinecraftVersion) -> (res: Result<
        Self,
        ReadingError,
    >)
        ensures
            final(read).data() == old(read).data(),
            match parse_move_vehicle(old(read).rest()) {
                Ok((p, rest)) => res == Ok::<Self, ReadingError>(p) && final(read).rest() == rest,
                Err(e) => res == Err::<Self, ReadingError>(e),
            },
    {
        let x_bits = match read.get_u64_be() {
            Ok(v) => v,
            Err(e) => {
                return Err(e);
            },
        };
        let y_bits = match read.get_u64_be() {
            Ok(v) => v,
            Err(e) => {
                return Err(e);
            },
        };
        let z_bits = match read.get_u64_be() {
            Ok(v) => v,
            Err(e) => {
                return Err(e);
            },
        };
        let yaw_bits = match read.get_u32_be() {
            Ok(v) => v,
            Err(e) => {
                return Err(e);
            },
        };
        let pitch_bits = match read.get_u32_be() {
            Ok(v) => v,
            Err(e) => {
                return Err(e);
            },
        };
        Ok(SMoveVehicle { x_bits, y_bits, z_bits, yaw_bits, pitch_bits })
    }
}

/// Decoding a written `SMoveVehicle`, whatever follows it, gives it back.
pub proof fn lemma_move_vehicle_roundtrip(p: SMoveVehicle, rest: Seq<u8>)
    ensures
        parse_move_vehicle(move_vehicle_bytes(p) + rest) == Ok::<(SMoveVehicle, Seq<u8>), ReadingError>((p, rest)),
{
    let a0 = be_bytes(p.x_bits as nat, 8);
    let a1 = be_bytes(p.y_bits as nat, 8);
    let a2 = be_bytes(p.z_bits as nat, 8);
    let a3 = be_bytes(p.yaw_bits as nat, 4);
    let a4 = be_bytes(p.pitch_bits as nat, 4);
    let t4 = a4;
    let t3 = a3 + t4;
    let t2 = a2 + t3;
    let t1 = a1 + t2;
    let t0 = a0 + t1;
    lemma_assoc(a0, t1, rest);
    lemma_assoc(a1, t2, rest);
    lemma_assoc(a2, t3, rest);
    lemma_assoc(a3, t4, rest);
    lemma_take_u64(p.x_bits, t1 + rest);
    lemma_take_u64(p.y_bits, t2 + rest);
    lemma_take_u64(p.z_bits, t3 + rest);
    lemma_take_u32(p.yaw_bits, t4 + rest);
    lemma_take_u32(p.pitch_bits, rest);
}

/// The rate at which the client wants chunks.
#[derive(Debug, Clone, Copy, PartialEq, Eq, Structural)]
pub struct SChunkBatch {
    /// Bit pattern of the `f32` chunks per tick.
    pub chunks_per_tick_bits: u32,
}

/// A `SChunkBatch` off the front of `s`: one big-endian `f32`.
pub open spec fn parse_chunk_batch(s: Seq<u8>) -> Result<(SChunkBatch, Seq<u8>), ReadingError> {
    match take_u32(s) {
        Err(e) => Err(e),
        Ok((v0, s1)) => {
            Ok((SChunkBatch { chunks_per_tick_bits: v0 }, s1))
        },
    }
}

/// The bytes of a `SChunkBatch`.
pub open spec fn chunk_batch_bytes(p: SChunkBatch) -> Seq<u8> {
    be_bytes(p.chunks_per_tick_bits as nat, 4)
}

impl SChunkBatch {
    /// Decode the packet from the front of `read`.
    pub fn read(read: &mut ByteReader, _version: &JavaMinecraftVersion) -> (res: Result<
        Self,
        ReadingError,
    >)
        ensures
            final(read).data() == old(read).data(),
            match parse_chunk_batch(old(read).rest()) {
                Ok((p, rest)) => res == Ok::<Self, ReadingError>(p) && final(read).rest() == rest,
                Err(e) => res == Err::<Self, ReadingError>(e),
            },
    {
        let chunks_per_tick_bits = match read.get_u32_be() {
            Ok(v) => v,
            Err(e) => {
                return Err(e);
            },
        };
        Ok(SChunkBatch { chunks_per_tick_bits })
    }
}

/// Decoding a written `SChunkBatch`, whatever follows it, gives it back.
pub proof fn lemma_chunk_batch_roundtrip(p: SChunkBatch, rest: Seq<u8>)
    ensures
        parse_chunk_batch(chunk_batch_bytes(p) + rest) == Ok::<(SChunkBatch, Seq<u8>), ReadingError>((p, rest)),
{
    let a0 = be_bytes(p.chunks_per_tick_bits as nat, 4);
    let t0 = a0;
    lemma_take_u32(p.chunks_per_tick_bits, rest);
}

/// What the player did to an entity, with the fields each kind carries.
#[derive(Debug, Clone, Copy, PartialEq, Eq, Structural)]
pub enum InteractAction {
    /// Use the entity with a hand.
    Interact { hand: VarInt },
    /// Hit the entity.
    Attack,
    /// Use the entity at a point on it: the bit patterns of the `f32` offsets, and the hand.
    InteractAt { target_x_bits: u32, target_y_bits: u32, target_z_bits: u32, hand: VarInt },
}

/// The player interacted with an entity.
#[derive(Debug, Clone, Copy, PartialEq, Eq, Structural)]
pub struct SInteract {
    pub entity_id: VarInt,
    pub action: InteractAction,
    pub sneaking: bool,
}

/// An interaction kind off the front of `s`: a kind VarInt (0 interact,
/// 1 attack, 2 interact at a point), then the fields of that kind. Any other
/// kind is an invalid value.
pub open spec fn parse_interact_action(s: Seq<u8>) -> Result<(InteractAction, Seq<u8>), ReadingError> {
    match take_var_int(s) {
        Err(e) => Err(e),
        Ok((kind, s1)) => if kind == 0 {
            match take_var_int(s1) {
                Err(e) => Err(e),
                Ok((hand, s2)) => Ok((InteractAction::Interact { hand: VarInt(hand) }, s2)),
            }
        } else if kind == 1 {
            Ok((InteractAction::Attack, s1))
        } else if kind == 2 {
            match take_u32(s1) {
                Err(e) => Err(e),
                Ok((x, s2)) => match take_u32(s2) {
                    Err(e) => Err(e),
                    Ok((y, s3)) => match take_u32(s3) {
                        Err(e) => Err(e),
                        Ok((z, s4)) => match take_var_int(s4) {
                            Err(e) => Err(e),
                            Ok((hand, s5)) => Ok(
                                (
                                    InteractAction::InteractAt {
                                        target_x_bits: x,
                                        target_y_bits: y,
                                        target_z_bits: z,
                                        hand: VarInt(hand),
                                    },
                                    s5,
                                ),
                            ),
                        },
                    },
                },
            }
        } else {
            Err(ReadingError::InvalidValue)
        },
    }
}

/// An interaction off the front of `s`: entity id VarInt, the interaction
/// kind with its fields, then the sneaking flag.
pub open spec fn parse_interact(s: Seq<u8>) -> Result<(SInteract, Seq<u8>), ReadingError> {
    match take_var_int(s) {
        Err(e) => Err(e),
        Ok((entity_id, s1)) => match parse_interact_action(s1) {
            Err(e) => Err(e),
            Ok((action, s2)) => match take_bool(s2) {
                Err(e) => Err(e),
                Ok((sneaking, s3)) => Ok(
                    (SInteract { entity_id: VarInt(entity_id), action, sneaking }, s3),
                ),
            },
        },
    }
}

/// The bytes of an interaction kind with its fields.
pub open spec fn interact_action_bytes(a: InteractAction) -> Seq<u8> {
    match a {
        InteractAction::Interact { hand } => var_int_bytes(0) + var_int_bytes(hand.0),
        InteractAction::Attack => var_int_bytes(1),
        InteractAction::InteractAt { target_x_bits, target_y_bits, target_z_bits, hand } =>
            var_int_bytes(2) + (be_bytes(target_x_bits as nat, 4) + (be_bytes(
            target_y_bits as nat,
            4,
        ) + (be_bytes(target_z_bits as nat, 4) + var_int_bytes(hand.0)))),
    }
}

/// The bytes of an interaction packet.
pub open spec fn interact_bytes(p: SInteract) -> Seq<u8> {
    var_int_bytes(p.entity_id.0) + (interact_action_bytes(p.action) + seq![bool_byte(p.sneaking)])
}

impl InteractAction {
    /// Decode an interaction kind and its fields from the front of `read`.
    pub fn read(read: &mut ByteReader) -> (res: Result<Self, ReadingError>)
        ensures
            final(read).data() == old(read).data(),
            match parse_interact_action(old(read).rest()) {
                Ok((a, rest)) => res == Ok::<Self, ReadingError>(a) && final(read).rest() == rest,
                Err(e) => res == Err::<Self, ReadingError>(e),
            },
    {
        let kind = match read.get_var_int() {
            Ok(v) => v,
            Err(e) => {
                return Err(e);
            },
        };
        if kind.0 == 0 {
            let hand = match read.get_var_int() {
                Ok(v) => v,
                Err(e) => {
                    return Err(e);
                },
            };
            Ok(InteractAction::Interact { hand })
        } else if kind.0 == 1 {
            Ok(InteractAction::Attack)
        } else if kind.0 == 2 {
            let target_x_bits = match read.get_u32_be() {
                Ok(v) => v,
                Err(e) => {
                    return Err(e);
                },
            };
            let target_y_bits = match read.get_u32_be() {
                Ok(v) => v,
                Err(e) => {
                    return Err(e);
                },
            };
            let target_z_bits = match read.get_u32_be() {
                Ok(v) => v,
                Err(e) => {
                    return Err(e);
                },
            };
            let hand = match read.get_var_int() {
                Ok(v) => v,
                Err(e) => {
                    return Err(e);
                },
            };
            Ok(InteractAction::InteractAt { target_x_bits, target_y_bits, target_z_bits, hand })
        } else {
            Err(ReadingError::InvalidValue)
        }
    }
}

impl SInteract {
    /// Decode an interaction from the front of `read`.
    pub fn read(read: &mut ByteReader, _version: &JavaMinecraftVersion) -> (res: Result<
        Self,
        ReadingError,
    >)
        ensures
            final(read).data() == old(read).data(),
            match parse_interact(old(read).rest()) {
                Ok((p, rest)) => res == Ok::<Self, ReadingError>(p) && final(read).rest() == rest,
                Err(e) => res == Err::<Self, ReadingError>(e),
            },
    {
        let entity_id = match read.get_var_int() {
            Ok(v) => v,
            Err(e) => {
                return Err(e);
            },
        };
        let action = match InteractAction::read(read) {
            Ok(v) => v,
            Err(e) => {
                return Err(e);
            },
        };
        let sneaking = match read.get_bool() {
            Ok(v) => v,
            Err(e) => {
                return Err(e);
            },
        };
        Ok(SInteract { entity_id, action, sneaking })
    }
}

/// Decoding written interaction fields gives them back.
pub proof fn lemma_interact_action_roundtrip(a: InteractAction, rest: Seq<u8>)
    ensures
        parse_interact_action(interact_action_bytes(a) + rest) == Ok::<
            (InteractAction, Seq<u8>),
            ReadingError,
        >((a, rest)),
{
    match a {
        InteractAction::Interact { hand } => {
            lemma_assoc(var_int_bytes(0), var_int_bytes(hand.0), rest);
            lemma_take_var_int(0, var_int_bytes(hand.0) + rest);
            lemma_take_var_int(hand.0, rest);
        },
        InteractAction::Attack => {
            lemma_take_var_int(1, rest);
        },
        InteractAction::InteractAt { target_x_bits, target_y_bits, target_z_bits, hand } => {
            let a0 = var_int_bytes(2);
            let a1 = be_bytes(target_x_bits as nat, 4);
            let a2 = be_bytes(target_y_bits as nat, 4);
            let a3 = be_bytes(target_z_bits as nat, 4);
            let a4 = var_int_bytes(hand.0);
            let t3 = a3 + a4;
            let t2 = a2 + t3;
            let t1 = a1 + t2;
            lemma_assoc(a0, t1, rest);
            lemma_assoc(a1, t2, rest);
            lemma_assoc(a2, t3, rest);
            lemma_assoc(a3, a4, rest);
            lemma_take_var_int(2, t1 + rest);
            lemma_take_u32(target_x_bits, t2 + rest);
            lemma_take_u32(target_y_bits, t3 + rest);
            lemma_take_u32(target_z_bits, a4 + rest);
            lemma_take_var_int(hand.0, rest);
        },
    }
}

/// Decoding a written interaction gives it back.
pub proof fn lemma_interact_roundtrip(p: SInteract, rest: Seq<u8>)
    ensures
        parse_interact(interact_bytes(p) + rest) == Ok::<(SInteract, Seq<u8>), ReadingError>(
            (p, rest),
        ),
{
    let a = var_int_bytes(p.entity_id.0);
    let b = interact_action_bytes(p.action);
    let c = seq![bool_byte(p.sneaking)];
    lemma_assoc(a, b + c, rest);
    lemma_assoc(b, c, rest);
    lemma_take_var_int(p.entity_id.0, (b + c) + rest);
    lemma_interact_action_roundtrip(p.action, c + rest);
    lemma_take_bool(p.sneaking, rest);
}

/// The player's chat session: its UUID (16 bytes read as one big-endian
/// number), when its key expires, the public key and the key's signature,
/// the last two as length-prefixed byte arrays on which the packet sets no
/// bound of its own.
pub struct SPlayerSession {
    pub session_id: u128,
    pub expires_at: i64,
    pub public_key: Vec<u8>,
    pub key_signature: Vec<u8>,
}

/// A chat session off the front of `s`: 16 bytes of UUID, the expiry as a
/// big-endian `i64`, then the key and the signature as length-prefixed
/// byte arrays.
pub open spec fn parse_player_session(s: Seq<u8>) -> Result<
    (u128, i64, Seq<u8>, Seq<u8>, Seq<u8>),
    ReadingError,
> {
    match take_u128(s) {
        Err(e) => Err(e),
        Ok((id, s1)) => match take_i64(s1) {
            Err(e) => Err(e),
            Ok((expires, s2)) => match take_byte_array(s2, MAX_PREFIXED_LENGTH as int) {
                Err(e) => Err(e),
                Ok((key, s3)) => match take_byte_array(s3, MAX_PREFIXED_LENGTH as int) {
                    Err(e) => Err(e),
                    Ok((signature, s4)) => Ok((id, expires, key, signature, s4)),
                },
            },
        },
    }
}

/// The bytes of a chat session.
pub open spec fn player_session_bytes(
    id: u128,
    expires: i64,
    key: Seq<u8>,
    signature: Seq<u8>,
) -> Seq<u8> {
    be_bytes(id as nat, 16) + (be_bytes(i64_bits(expires), 8) + (byte_array_bytes(key)
        + byte_array_bytes(signature)))
}

impl SPlayerSession {
    /// Decode a chat session from the front of `read`.
    pub fn read(read: &mut ByteReader, _version: &JavaMinecraftVersion) -> (res: Result<
        Self,
        ReadingError,
    >)
        ensures
            final(read).data() == old(read).data(),
            match parse_player_session(old(read).rest()) {
                Ok((id, expires, key, signature, rest)) => res matches Ok(p) && p.session_id == id
                    && p.expires_at == expires && p.public_key@ == key && p.key_signature@
                    == signature && final(read).rest() == rest,
                Err(e) => res matches Err(r) && r == e,
            },
    {
        let session_id = match read.get_u128_be() {
            Ok(v) => v,
            Err(e) => {
                return Err(e);
            },
        };
        let expires_at = match read.get_i64_be() {
            Ok(v) => v,
            Err(e) => {
                return Err(e);
            },
        };
        let public_key = match read.get_byte_array(MAX_PREFIXED_LENGTH) {
            Ok(v) => v,
            Err(e) => {
                return Err(e);
            },
        };
        let key_signature = match read.get_byte_array(MAX_PREFIXED_LENGTH) {
            Ok(v) => v,
            Err(e) => {
                return Err(e);
            },
        };
        Ok(SPlayerSession { session_id, expires_at, public_key, key_signature })
    }
}

/// Decoding a written chat session gives back all four fields.
pub proof fn lemma_player_session_roundtrip(
    id: u128,
    expires: i64,
    key: Seq<u8>,
    signature: Seq<u8>,
    rest: Seq<u8>,
)
    requires
        key.len() <= i32::MAX,
        signature.len() <= i32::MAX,
    ensures
        parse_player_session(player_session_bytes(id, expires, key, signature) + rest) == Ok::<
            (u128, i64, Seq<u8>, Seq<u8>, Seq<u8>),
            ReadingError,
        >((id, expires, key, signature, rest)),
{
    let a = be_bytes(id as nat, 16);
    let b = be_bytes(i64_bits(expires), 8);
    let c = byte_array_bytes(key);
    let d = byte_array_bytes(signature);
    lemma_assoc(a, b + (c + d), rest);
    lemma_assoc(b, c + d, rest);
    lemma_assoc(c, d, rest);
    lemma_take_u128(id, (b + (c + d)) + rest);
    lemma_take_i64(expires, (c + d) + rest);
    lemma_take_byte_array(key, MAX_PREFIXED_LENGTH as int, d + rest);
    lemma_take_byte_array(signature, MAX_PREFIXED_LENGTH as int, rest);
}

/// The game modes a player can ask to switch to.
#[derive(Debug, Clone, Copy, PartialEq, Eq, Structural)]
pub enum GameMode {
    Survival,
    Creative,
    Adventure,
    Spectator,
}

/// The game mode a change-game-mode byte names: 1 survival, 2 creative,
/// 3 adventure, 4 spectator; any other byte names none.
pub open spec fn game_mode_of(b: u8) -> Option<GameMode> {
    if b == 1 {
        Some(GameMode::Survival)
    } else if b == 2 {
        Some(GameMode::Creative)
    } else if b == 3 {
        Some(GameMode::Adventure)
    } else if b == 4 {
        Some(GameMode::Spectator)
    } else {
        None
    }
}

/// The byte that names a game mode in a change-game-mode packet.
pub open spec fn game_mode_byte(g: GameMode) -> u8 {
    match g {
        GameMode::Survival => 1,
        GameMode::Creative => 2,
        GameMode::Adventure => 3,
        GameMode::Spectator => 4,
    }
}

/// The player asks to switch game mode.
#[derive(Debug, Clone, Copy, PartialEq, Eq, Structural)]
pub struct SChangeGameMode {
    pub game_mode: GameMode,
}

/// A change-game-mode packet off the front of `s`: one byte naming the
/// mode; a byte that names no mode is an invalid value.
pub open spec fn parse_change_game_mode(s: Seq<u8>) -> Result<(SChangeGameMode, Seq<u8>), ReadingError> {
    match take_u8(s) {
        Err(e) => Err(e),
        Ok((b, s1)) => match game_mode_of(b) {
            None => Err(ReadingError::InvalidValue),
            Some(g) => Ok((SChangeGameMode { game_mode: g }, s1)),
        },
    }
}

/// The bytes of a change-game-mode packet.
pub open spec fn change_game_mode_bytes(p: SChangeGameMode) -> Seq<u8> {
    seq![game_mode_byte(p.game_mode)]
}

impl SChangeGameMode {
    /// Decode a change-game-mode packet from the front of `read`.
    pub fn read(read: &mut ByteReader, _version: &JavaMinecraftVersion) -> (res: Result<
        Self,
        ReadingError,
    >)
        ensures
            final(read).data() == old(read).data(),
            match parse_change_game_mode(old(read).rest()) {
                Ok((p, rest)) => res == Ok::<Self, ReadingError>(p) && final(read).rest() == rest,
                Err(e) => res == Err::<Self, ReadingError>(e),
            },
    {
        let b = match read.get_u8() {
            Ok(v) => v,
            Err(e) => {
                return Err(e);
            },
        };
        let game_mode = if b == 1 {
            GameMode::Survival
        } else if b == 2 {
            GameMode::Creative
        } else if b == 3 {
            GameMode::Adventure
        } else if b == 4 {
            GameMode::Spectator
        } else {
            return Err(ReadingError::InvalidValue);
        };
        Ok(SChangeGameMode { game_mode })
    }
}

/// Decoding a written change-game-mode packet gives it back.
pub proof fn lemma_change_game_mode_roundtrip(p: SChangeGameMode, rest: Seq<u8>)
    ensures
        parse_change_game_mode(change_game_mode_bytes(p) + rest) == Ok::<
            (SChangeGameMode, Seq<u8>),
            ReadingError,
        >((p, rest)),
{
    lemma_take_u8(game_mode_byte(p.game_mode), rest);
}

/// An item put into a slot from the creative inventory: its count, and its
/// item id and components as the bytes that follow (decoding those needs
/// the item registry).
pub struct CreativeItem {
    pub count: i32,
    pub data: Vec<u8>,
}

/// The player sets a slot from the creative inventory.
pub struct SSetCreativeSlot {
    pub slot: i16,
    pub clicked_item: Option<CreativeItem>,
}

/// A creative slot change off the front of `s`: the slot as a big-endian
/// `i16`, then the item count VarInt; a count of zero or less is an empty
/// slot, otherwise the rest of the packet is the item's id and components.
pub open spec fn parse_set_creative_slot(s: Seq<u8>) -> Result<
    (i16, Option<(i32, Seq<u8>)>, Seq<u8>),
    ReadingError,
> {
    match take_i16(s) {
        Err(e) => Err(e),
        Ok((slot, s1)) => match take_var_int(s1) {
            Err(e) => Err(e),
            Ok((count, s2)) => if count <= 0 {
                Ok((slot, None, s2))
            } else {
                match take_remaining(s2, MAX_PREFIXED_LENGTH as int) {
                    Err(e) => Err(e),
                    Ok((data, s3)) => Ok((slot, Some((count, data)), s3)),
                }
            },
        },
    }
}

/// The bytes of a creative slot change.
pub open spec fn set_creative_slot_bytes(slot: i16, item: Option<(i32, Seq<u8>)>) -> Seq<u8> {
    match item {
        None => be_bytes(i16_bits(slot), 2) + var_int_bytes(0),
        Some((count, data)) => be_bytes(i16_bits(slot), 2) + (var_int_bytes(count) + data),
    }
}

impl SSetCreativeSlot {
    /// Decode a creative slot change from the front of `read`.
    pub fn read(read: &mut ByteReader, _version: &JavaMinecraftVersion) -> (res: Result<
        Self,
        ReadingError,
    >)
        ensures
            final(read).data() == old(read).data(),
            match parse_set_creative_slot(old(read).rest()) {
                Ok((slot, item, rest)) => res matches Ok(p) && p.slot == slot && (match item {
                    None => p.clicked_item is None,
                    Some((count, data)) => p.clicked_item matches Some(it) && it.count == count
                        && it.data@ == data,
                }) && final(read).rest() == rest,
                Err(e) => res matches Err(r) && r == e,
            },
    {
        let slot = match read.get_i16_be() {
            Ok(v) => v,
            Err(e) => {
                return Err(e);
            },
        };
        let count = match read.get_var_int() {
            Ok(v) => v.0,
            Err(e) => {
                return Err(e);
            },
        };
        if count <= 0 {
            return Ok(SSetCreativeSlot { slot, clicked_item: None });
        }
        match read.read_remaining(MAX_PREFIXED_LENGTH) {
            Ok(data) => Ok(SSetCreativeSlot { slot, clicked_item: Some(CreativeItem { count, data }) }),
            Err(e) => Err(e),
        }
    }
}

/// Decoding a written creative slot change gives back the slot and the
/// item: an empty slot whatever follows, and an item (a positive count)
/// when its bytes end the packet.
pub proof fn lemma_set_creative_slot_roundtrip(
    slot: i16,
    item: Option<(i32, Seq<u8>)>,
    rest: Seq<u8>,
)
    requires
        item matches Some((count, data)) ==> count > 0 && data.len() <= MAX_PREFIXED_LENGTH
            && rest.len() == 0,
    ensures
        parse_set_creative_slot(set_creative_slot_bytes(slot, item) + rest) == Ok::<
            (i16, Option<(i32, Seq<u8>)>, Seq<u8>),
            ReadingError,
        >((slot, item, rest)),
{
    let a = be_bytes(i16_bits(slot), 2);
    match item {
        None => {
            lemma_assoc(a, var_int_bytes(0), rest);
            lemma_take_i16(slot, var_int_bytes(0) + rest);
            lemma_take_var_int(0, rest);
        },
        Some((count, data)) => {
            let b = var_int_bytes(count);
            assert(rest =~= Seq::<u8>::empty());
            assert((a + (b + data)) + rest =~= a + (b + data));
            lemma_take_i16(slot, b + data);
            lemma_take_var_int(count, data);
        },
    }
}


/// The change-game-mode byte names survival 1, creative 2, adventure 3 and
/// spectator 4; every mode's byte names it back, and a byte names a mode
/// exactly when it is 1 to 4.
pub proof fn lemma_game_mode_bytes(g: GameMode, b: u8)
    ensures
        game_mode_byte(GameMode::Survival) == 1,
        game_mode_byte(GameMode::Creative) == 2,
        game_mode_byte(GameMode::Adventure) == 3,
        game_mode_byte(GameMode::Spectator) == 4,
        game_mode_of(game_mode_byte(g)) == Some(g),
        game_mode_of(b) is Some <==> 1 <= b <= 4,
{
}

} // verus!
