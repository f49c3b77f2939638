use pumpkin::codec::{ByteReader, NetworkWriteExt, ReadingError, VarInt};
use pumpkin::handshake::{ConnectionState, JavaMinecraftVersion, SHandShake};
use pumpkin::math::BlockPos;
use pumpkin::serverbound::{config, login, play, status};

/// The protocol version all these tests read and write with.
fn version() -> JavaMinecraftVersion {
    JavaMinecraftVersion::from_protocol(769)
}

/// Write known bytes to a buffer, then read them back with `read`.
fn write_then_read<P>(
    writer: impl FnOnce(&mut Vec<u8>),
    read: fn(&mut ByteReader, &JavaMinecraftVersion) -> Result<P, ReadingError>,
) -> P {
    let mut buf = Vec::new();
    writer(&mut buf);
    let mut reader = ByteReader::new(&buf);
    match read(&mut reader, &version()) {
        Ok(p) => p,
        Err(e) => panic!("ServerPacket::read failed: {:?}", e),
    }
}

fn write_client_information(buf: &mut Vec<u8>, locale: &str) {
    buf.write_string(locale).unwrap();
    buf.write_i8(12).unwrap();
    buf.write_var_int(&VarInt(0)).unwrap();
    buf.write_bool(true).unwrap();
    buf.write_u8(0x7F).unwrap();
    buf.write_var_int(&VarInt(1)).unwrap();
    buf.write_bool(false).unwrap();
    buf.write_bool(true).unwrap();
}

// ---------------------------------------------------------------------------
// Handshake
// ---------------------------------------------------------------------------

#[test]
fn handshake_accepts_long_server_address() {
    let version = JavaMinecraftVersion::from_protocol(767);
    let long_host = "a".repeat(300);
    let packet = SHandShake {
        protocol_version: VarInt(767),
        server_address: long_host.clone(),
        server_port: 25565,
        next_state: ConnectionState::Login,
    };
    let mut buf = Vec::new();
    buf.write_var_int(&VarInt(0)).expect("write packet id");
    packet.write_packet_data(&mut buf, &version).expect("write packet");

    let mut cursor = ByteReader::new(&buf);
    cursor.get_var_int().expect("read packet id");
    let decoded = SHandShake::read(&mut cursor, &version).expect("read handshake");
    assert_eq!(decoded.server_address.as_str(), long_host.as_str());
    assert_eq!(decoded.protocol_version.0, 767);
    assert_eq!(decoded.server_port, 25565);
}

#[test]
fn handshake_roundtrip() {
    let packet: SHandShake = write_then_read(
        |buf| {
            buf.write_var_int(&VarInt(767)).unwrap();
            buf.write_string("localhost").unwrap();
            buf.write_u16_be(25565).unwrap();
            buf.write_var_int(&VarInt(2)).unwrap();
        },
        SHandShake::read,
    );
    assert_eq!(packet.protocol_version, VarInt(767));
    assert_eq!(packet.server_address.as_str(), "localhost");
    assert_eq!(packet.server_port, 25565);
    assert_eq!(packet.next_state, ConnectionState::Login);
}

#[test]
fn handshake_bidirectional() {
    let original = SHandShake {
        protocol_version: VarInt(768),
        server_address: String::from("mc.example.com"),
        server_port: 25565,
        next_state: ConnectionState::Status,
    };
    let mut buf = Vec::new();
    original.write_packet_data(&mut buf, &version()).expect("write");
    let mut cursor = ByteReader::new(&buf);
    let decoded = SHandShake::read(&mut cursor, &version()).expect("read");
    assert_eq!(original.protocol_version, decoded.protocol_version);
    assert_eq!(original.server_address, decoded.server_address);
    assert_eq!(original.server_port, decoded.server_port);
}

#[test]
fn port_zero() {
    let _packet: SHandShake = write_then_read(
        |buf| {
            buf.write_var_int(&VarInt(767)).unwrap();
            buf.write_string("localhost").unwrap();
            buf.write_u16_be(0).unwrap();
            buf.write_var_int(&VarInt(2)).unwrap();
        },
        SHandShake::read,
    );
}

#[test]
fn port_max() {
    let packet: SHandShake = write_then_read(
        |buf| {
            buf.write_var_int(&VarInt(767)).unwrap();
            buf.write_string("localhost").unwrap();
            buf.write_u16_be(u16::MAX).unwrap();
            buf.write_var_int(&VarInt(2)).unwrap();
        },
        SHandShake::read,
    );
    assert_eq!(packet.server_port, u16::MAX);
}

#[test]
fn long_handshake_address() {
    let packet: SHandShake = write_then_read(
        |buf| {
            buf.write_var_int(&VarInt(767)).unwrap();
            let long_addr = "a".repeat(255);
            buf.write_string(&long_addr).unwrap();
            buf.write_u16_be(25565).unwrap();
            buf.write_var_int(&VarInt(2)).unwrap();
        },
        SHandShake::read,
    );
    assert_eq!(packet.server_address.len(), 255);
}

#[test]
fn handshake_port_zero() {
    let mut buf = Vec::new();
    buf.write_var_int(&VarInt(767)).unwrap();
    buf.write_string("localhost").unwrap();
    buf.write_u16_be(0).unwrap();
    buf.write_var_int(&VarInt(2)).unwrap();
    let mut cursor = ByteReader::new(&buf);
    let packet = SHandShake::read(&mut cursor, &version()).expect("Port=0 should be valid");
    assert_eq!(packet.server_port, 0);
}

#[test]
fn handshake_port_max() {
    let mut buf = Vec::new();
    buf.write_var_int(&VarInt(767)).unwrap();
    buf.write_string("localhost").unwrap();
    buf.write_u16_be(u16::MAX).unwrap();
    buf.write_var_int(&VarInt(2)).unwrap();
    let mut cursor = ByteReader::new(&buf);
    let packet = SHandShake::read(&mut cursor, &version()).expect("Port=u16::MAX should be valid");
    assert_eq!(packet.server_port, u16::MAX);
}

#[test]
fn truncated_handshake_string_fails() {
    let mut buf = Vec::new();
    buf.write_var_int(&VarInt(767)).unwrap();
    buf.write_string("very-long-server-address.example.com").unwrap();
    buf.write_u16_be(25565).unwrap();
    buf.write_var_int(&VarInt(2)).unwrap();
    let truncated = &buf[..buf.len().saturating_sub(10)];
    let mut cursor = ByteReader::new(truncated);
    let result = SHandShake::read(&mut cursor, &version());
    assert!(result.is_err(), "Truncated handshake string should fail");
}

#[test]
fn handshake_rejects_unknown_next_state() {
    let mut buf = Vec::new();
    buf.write_var_int(&VarInt(767)).unwrap();
    buf.write_string("localhost").unwrap();
    buf.write_u16_be(25565).unwrap();
    buf.write_var_int(&VarInt(7)).unwrap();
    let mut cursor = ByteReader::new(&buf);
    let err = SHandShake::read(&mut cursor, &version()).err().unwrap();
    assert_eq!(err, ReadingError::InvalidStatus);
    assert_eq!(err.message(), "Invalid status");
}

// ---------------------------------------------------------------------------
// VarInts
// ---------------------------------------------------------------------------

#[test]
fn truncated_varint_fails() {
    let truncated = [0x80];
    let mut cursor = ByteReader::new(&truncated);
    let result: Result<VarInt, _> = cursor.get_var_int();
    assert!(result.is_err(), "Truncated VarInt should fail");
}

#[test]
fn overlong_varint_does_not_panic() {
    let overlong = [0x80, 0x80, 0x80, 0x80, 0x00];
    let mut cursor = ByteReader::new(&overlong);
    let _result: Result<VarInt, _> = cursor.get_var_int();
}

#[test]
fn oversized_varint_does_not_panic() {
    let oversized = [0xFF, 0xFF, 0xFF, 0xFF, 0xFF, 0xFF, 0xFF, 0xFF, 0xFF, 0x01];
    let mut cursor = ByteReader::new(&oversized);
    let _result: Result<VarInt, _> = cursor.get_var_int();
}

#[test]
fn varint_exact_values() {
    let mut buf = Vec::new();
    buf.write_var_int(&VarInt(300)).unwrap();
    assert_eq!(buf, vec![0xAC, 0x02]);
    let mut buf = Vec::new();
    buf.write_var_int(&VarInt(-1)).unwrap();
    assert_eq!(buf, vec![0xFF, 0xFF, 0xFF, 0xFF, 0x0F]);
    let mut cursor = ByteReader::new(&buf);
    assert_eq!(cursor.get_var_int(), Ok(VarInt(-1)));
    assert_eq!(cursor.position(), 5);
    let overlong = [0x80, 0x80, 0x80, 0x80, 0x00];
    assert_eq!(ByteReader::new(&overlong).get_var_int(), Ok(VarInt(0)));
    let too_long = [0x80, 0x80, 0x80, 0x80, 0x80, 0x01];
    assert_eq!(
        ByteReader::new(&too_long).get_var_int(),
        Err(ReadingError::VarIntTooLarge)
    );
}

#[test]
fn negative_string_length_fails() {
    let mut buf = Vec::new();
    buf.write_var_int(&VarInt(-3)).unwrap();
    let mut cursor = ByteReader::new(&buf);
    assert_eq!(cursor.get_str(), Err(ReadingError::NegativeLength));
}

#[test]
fn invalid_utf8_string_fails() {
    let buf = [2u8, 0xC3, 0x28];
    let mut cursor = ByteReader::new(&buf);
    assert_eq!(cursor.get_str(), Err(ReadingError::InvalidUtf8));
}

#[test]
fn big_endian_values() {
    let mut buf = Vec::new();
    buf.write_i64_be(-2).unwrap();
    buf.write_i16_be(-300).unwrap();
    buf.write_u16_be(0x1234).unwrap();
    assert_eq!(
        buf,
        vec![0xFF, 0xFF, 0xFF, 0xFF, 0xFF, 0xFF, 0xFF, 0xFE, 0xFE, 0xD4, 0x12, 0x34]
    );
    let mut cursor = ByteReader::new(&buf);
    assert_eq!(cursor.get_i64_be(), Ok(-2));
    assert_eq!(cursor.get_i16_be(), Ok(-300));
    assert_eq!(cursor.get_u16_be(), Ok(0x1234));
    assert_eq!(cursor.get_u8(), Err(ReadingError::Incomplete));
}

// ---------------------------------------------------------------------------
// Status
// ---------------------------------------------------------------------------

#[test]
fn status_request_decode() {
    let _packet: status::SStatusRequest = write_then_read(|_buf| {}, status::SStatusRequest::read);
}

#[test]
fn status_ping_request_roundtrip() {
    let packet: status::SStatusPingRequest = write_then_read(
        |buf| {
            buf.write_i64_be(42).unwrap();
        },
        status::SStatusPingRequest::read,
    );
    assert_eq!(packet.payload, 42);
}

#[test]
fn status_request_no_data() {
    let _packet: status::SStatusRequest = write_then_read(|_buf| {}, status::SStatusRequest::read);
}

// ---------------------------------------------------------------------------
// Config
// ---------------------------------------------------------------------------

#[test]
fn config_client_information_roundtrip() {
    let packet: config::SClientInformationConfig = write_then_read(
        |buf| write_client_information(buf, "en_US"),
        config::SClientInformationConfig::read,
    );
    assert_eq!(packet.locale, "en_US");
    assert_eq!(packet.view_distance, 12);
    assert_eq!(packet.chat_mode, VarInt(0));
    assert!(packet.chat_colors);
    assert_eq!(packet.skin_parts, 0x7F);
}

#[test]
fn config_plugin_message_roundtrip() {
    let packet: config::SPluginMessage = write_then_read(
        |buf| {
            buf.write_string("minecraft:brand").unwrap();
            let data: &[u8] = &[0x00, 0x05, b'P', b'u', b'm', b'p', b'k', b'i', b'n'];
            buf.write_slice(data).unwrap();
        },
        config::SPluginMessage::read,
    );
    assert_eq!(packet.channel.as_str(), "minecraft:brand");
    assert_eq!(&*packet.data, &[0x00, 0x05, b'P', b'u', b'm', b'p', b'k', b'i', b'n']);
}

#[test]
fn config_known_packs_roundtrip() {
    let packet: config::SKnownPacks = write_then_read(
        |buf| {
            buf.write_var_int(&VarInt(0)).unwrap();
        },
        config::SKnownPacks::read,
    );
    assert_eq!(packet.known_pack_count, VarInt(0));
}

#[test]
fn config_keep_alive_roundtrip() {
    let packet: config::SKeepAlive = write_then_read(
        |buf| {
            buf.write_i64_be(123456).unwrap();
        },
        config::SKeepAlive::read,
    );
    assert_eq!(packet.keep_alive_id, 123456);
}

#[test]
fn plugin_message_above_bound_fails() {
    let mut buf = Vec::new();
    buf.write_string("minecraft:brand").unwrap();
    buf.extend(std::iter::repeat(0u8).take(config::MAX_PLUGIN_MESSAGE_SIZE + 1));
    let mut cursor = ByteReader::new(&buf);
    assert!(matches!(
        config::SPluginMessage::read(&mut cursor, &version()),
        Err(ReadingError::TooLarge)
    ));
}

// ---------------------------------------------------------------------------
// Play
// ---------------------------------------------------------------------------

#[test]
fn play_keep_alive_roundtrip() {
    let packet: play::SKeepAlive = write_then_read(
        |buf| {
            buf.write_i64_be(999).unwrap();
        },
        play::SKeepAlive::read,
    );
    assert_eq!(packet.keep_alive_id, 999);
}

#[test]
fn play_confirm_teleport_roundtrip() {
    let packet: play::SConfirmTeleport = write_then_read(
        |buf| {
            buf.write_var_int(&VarInt(42)).unwrap();
        },
        play::SConfirmTeleport::read,
    );
    assert_eq!(packet.teleport_id, VarInt(42));
}

#[test]
fn play_chat_command_roundtrip() {
    let packet: play::SChatCommand = write_then_read(
        |buf| {
            buf.write_string("/help").unwrap();
        },
        play::SChatCommand::read,
    );
    assert_eq!(packet.command, "/help");
}

#[test]
fn play_client_information_roundtrip() {
    let packet: play::SClientInformationPlay = write_then_read(
        |buf| write_client_information(buf, "en_US"),
        play::SClientInformationPlay::read,
    );
    assert_eq!(packet.locale, "en_US");
    assert_eq!(packet.view_distance, 12);
    assert_eq!(packet.chat_mode, VarInt(0));
    assert!(packet.chat_colors);
}

#[test]
fn play_swing_arm_roundtrip() {
    let packet: play::SSwingArm = write_then_read(
        |buf| {
            buf.write_var_int(&VarInt(0)).unwrap();
        },
        play::SSwingArm::read,
    );
    assert_eq!(packet.hand, VarInt(0));
}

#[test]
fn play_player_command_roundtrip() {
    let packet: play::SPlayerCommand = write_then_read(
        |buf| {
            buf.write_var_int(&VarInt(0)).unwrap();
            buf.write_var_int(&VarInt(0)).unwrap();
            buf.write_var_int(&VarInt(0)).unwrap();
        },
        play::SPlayerCommand::read,
    );
    assert_eq!(packet.entity_id, VarInt(0));
}

#[test]
fn play_player_input_roundtrip() {
    let packet: play::SPlayerInput = write_then_read(
        |buf| {
            buf.write_i8(play::SPlayerInput::FORWARD | play::SPlayerInput::JUMP).unwrap();
        },
        play::SPlayerInput::read,
    );
    assert_eq!(packet.input, play::SPlayerInput::FORWARD | play::SPlayerInput::JUMP);
}

#[test]
fn play_set_held_item_roundtrip() {
    let packet: play::SSetHeldItem = write_then_read(
        |buf| {
            buf.write_i16_be(4).unwrap();
        },
        play::SSetHeldItem::read,
    );
    assert_eq!(packet.slot, 4);
}

#[test]
fn play_close_container_roundtrip() {
    let packet: play::SCloseContainer = write_then_read(
        |buf| {
            buf.write_var_int(&VarInt(0)).unwrap();
        },
        play::SCloseContainer::read,
    );
    assert_eq!(packet.window_id, VarInt(0));
}

#[test]
fn play_paddle_boat_roundtrip() {
    let packet: play::SPaddleBoat = write_then_read(
        |buf| {
            buf.write_bool(true).unwrap();
            buf.write_bool(false).unwrap();
        },
        play::SPaddleBoat::read,
    );
    assert!(packet.left_paddle);
    assert!(!packet.right_paddle);
}

#[test]
fn play_player_abilities_roundtrip() {
    let packet: play::SPlayerAbilities = write_then_read(
        |buf| {
            buf.write_i8(0x02).unwrap();
        },
        play::SPlayerAbilities::read,
    );
    assert_eq!(packet.flags, 0x02);
}

#[test]
fn play_ping_request_roundtrip() {
    let packet: play::SPlayPingRequest = write_then_read(
        |buf| {
            buf.write_i64_be(42).unwrap();
        },
        play::SPlayPingRequest::read,
    );
    assert_eq!(packet.payload, 42);
}

#[test]
fn play_custom_payload_roundtrip() {
    let packet: play::SCustomPayload = write_then_read(
        |buf| {
            buf.write_string("minecraft:register").unwrap();
            let data: &[u8] = &[0x00];
            buf.write_slice(data).unwrap();
        },
        play::SCustomPayload::read,
    );
    assert_eq!(packet.channel.as_str(), "minecraft:register");
    assert_eq!(&*packet.data, &[0x00u8]);
}

#[test]
fn play_client_command_roundtrip() {
    let packet: play::SClientCommand = write_then_read(
        |buf| {
            buf.write_var_int(&VarInt(0)).unwrap();
        },
        play::SClientCommand::read,
    );
    assert_eq!(packet.action_id, VarInt(0));
}

#[test]
fn play_cookie_response_roundtrip() {
    let packet: play::SCookieResponse = write_then_read(
        |buf| {
            buf.write_string("minecraft:test_cookie").unwrap();
            buf.write_bool(false).unwrap();
        },
        play::SCookieResponse::read,
    );
    assert_eq!(packet.key.as_str(), "minecraft:test_cookie");
    assert!(packet.payload.is_none());
}

#[test]
fn play_cookie_response_with_payload_roundtrip() {
    let packet: play::SCookieResponse = write_then_read(
        |buf| {
            buf.write_string("session").unwrap();
            buf.write_bool(true).unwrap();
            let payload: &[u8] = &[0xDE, 0xAD, 0xBE, 0xEF];
            buf.write_var_int(&VarInt(payload.len() as i32)).unwrap();
            buf.write_slice(payload).unwrap();
        },
        play::SCookieResponse::read,
    );
    assert_eq!(packet.key.as_str(), "session");
    assert_eq!(packet.payload.as_deref(), Some(&[0xDE, 0xAD, 0xBE, 0xEF][..]));
}

#[test]
fn cookie_payload_above_bound_fails() {
    let mut buf = Vec::new();
    buf.write_string("session").unwrap();
    buf.write_bool(true).unwrap();
    buf.write_var_int(&VarInt(play::MAX_COOKIE_SIZE as i32 + 1)).unwrap();
    let mut cursor = ByteReader::new(&buf);
    assert!(matches!(
        play::SCookieResponse::read(&mut cursor, &version()),
        Err(ReadingError::TooLarge)
    ));
}

#[test]
fn very_long_locale() {
    let packet: play::SClientInformationPlay = write_then_read(
        |buf| {
            let long = "e".repeat(250);
            write_client_information(buf, &long);
        },
        play::SClientInformationPlay::read,
    );
    assert_eq!(packet.locale.len(), 250);
}

#[test]
fn max_teleport_id() {
    let packet: play::SConfirmTeleport = write_then_read(
        |buf| {
            buf.write_var_int(&VarInt(i32::MAX)).unwrap();
        },
        play::SConfirmTeleport::read,
    );
    assert_eq!(packet.teleport_id, VarInt(i32::MAX));
}

#[test]
fn empty_locale() {
    let packet: play::SClientInformationPlay = write_then_read(
        |buf| write_client_information(buf, ""),
        play::SClientInformationPlay::read,
    );
    assert_eq!(packet.locale, "");
}

// ---------------------------------------------------------------------------
// Malformed input
// ---------------------------------------------------------------------------

#[test]
fn empty_buffer_fails() {
    let empty: [u8; 0] = [];
    let mut cursor = ByteReader::new(&empty);
    let result = play::SKeepAlive::read(&mut cursor, &version());
    assert!(result.is_err(), "Reading from an empty buffer should fail");
}

#[test]
fn truncated_keep_alive_payload_fails() {
    let mut buf = Vec::new();
    buf.write_i64_be(42).unwrap();
    let truncated = &buf[..4];
    let mut cursor = ByteReader::new(truncated);
    let result = play::SKeepAlive::read(&mut cursor, &version());
    assert!(result.is_err(), "Truncated keep-alive payload should fail");
}

#[test]
fn bit_flips_do_not_cause_panic() {
    let mut buf = Vec::new();
    buf.write_i64_be(42).unwrap();
    for flip_pos in 0..buf.len() {
        let mut corrupted = buf.clone();
        corrupted[flip_pos] ^= 0xFF;
        let mut cursor = ByteReader::new(&corrupted);
        let _result = play::SKeepAlive::read(&mut cursor, &version());
    }
}

#[test]
fn empty_locale_roundtrip() {
    let mut buf = Vec::new();
    write_client_information(&mut buf, "");
    let mut cursor = ByteReader::new(&buf);
    let packet = match play::SClientInformationPlay::read(&mut cursor, &version()) {
        Ok(p) => p,
        Err(e) => panic!("Empty locale should be valid: {:?}", e),
    };
    assert_eq!(packet.locale, "");
}

#[test]
fn play_player_action_roundtrip() {
    let packet: play::SPlayerAction = write_then_read(
        |buf| {
            buf.write_var_int(&VarInt(0)).unwrap();
            buf.write_i64_be(BlockPos::new(10, 64, 10).to_i64()).unwrap();
            buf.write_u8(1).unwrap();
            buf.write_var_int(&VarInt(0)).unwrap();
        },
        play::SPlayerAction::read,
    );
    assert_eq!(packet.status, VarInt(0));
    assert_eq!(packet.face, 1);
    assert_eq!(packet.location, BlockPos::new(10, 64, 10));
}

#[test]
fn play_pick_item_from_block_roundtrip() {
    let packet: play::SPickItemFromBlock = write_then_read(
        |buf| {
            buf.write_i64_be(BlockPos::new(0, 0, 0).to_i64()).unwrap();
            buf.write_bool(true).unwrap();
        },
        play::SPickItemFromBlock::read,
    );
    assert!(packet.include_data);
    assert_eq!(packet.pos, BlockPos::new(0, 0, 0));
}

#[test]
fn any_nonzero_byte_reads_as_true() {
    let buf = [2u8, 0u8];
    let mut cursor = ByteReader::new(&buf);
    let packet = play::SPaddleBoat::read(&mut cursor, &version()).unwrap();
    assert!(packet.left_paddle);
    assert!(!packet.right_paddle);
}

#[test]
fn login_start_roundtrip() {
    let uuid: u128 = 0x550e_8400_e29b_41d4_a716_4466_5544_0000;
    let packet: login::SLoginStart = write_then_read(
        |buf| {
            buf.write_string("Player1").unwrap();
            buf.write_slice(&uuid.to_be_bytes()).unwrap();
        },
        login::SLoginStart::read,
    );
    assert_eq!(packet.name.as_str(), "Player1");
    assert_eq!(packet.uuid, uuid);
}

#[test]
fn truncated_login_start_uuid_fails() {
    let mut buf = Vec::new();
    buf.write_string("Player1").unwrap();
    buf.write_slice(&[0x00u8; 8]).unwrap();
    let mut cursor = ByteReader::new(&buf);
    let result = login::SLoginStart::read(&mut cursor, &version());
    assert!(result.is_err(), "Truncated UUID should fail");
}

#[test]
fn nil_uuid_login_start() {
    let mut buf = Vec::new();
    buf.write_string("Test").unwrap();
    buf.write_slice(&0u128.to_be_bytes()).unwrap();
    let mut cursor = ByteReader::new(&buf);
    let packet = match login::SLoginStart::read(&mut cursor, &version()) {
        Ok(p) => p,
        Err(e) => panic!("Nil UUID should be valid: {:?}", e),
    };
    assert_eq!(packet.uuid, 0);
}

#[test]
fn login_name_above_bound_fails() {
    let mut buf = Vec::new();
    buf.write_string("SeventeenLetters!").unwrap();
    buf.write_slice(&[0u8; 16]).unwrap();
    let mut cursor = ByteReader::new(&buf);
    assert!(matches!(
        login::SLoginStart::read(&mut cursor, &version()),
        Err(ReadingError::TooLarge)
    ));
}

// ---------------------------------------------------------------------------
// Play — movement and item use, floats carried as bit patterns
// ---------------------------------------------------------------------------

fn write_f64(buf: &mut Vec<u8>, v: f64) {
    buf.write_slice(&v.to_be_bytes()).unwrap();
}

fn write_f32(buf: &mut Vec<u8>, v: f32) {
    buf.write_slice(&v.to_be_bytes()).unwrap();
}

#[test]
fn play_player_position_roundtrip() {
    let packet: play::SPlayerPosition = write_then_read(
        |buf| {
            write_f64(buf, 10.5);
            write_f64(buf, 64.0);
            write_f64(buf, -20.3);
            buf.write_u8(0).unwrap();
        },
        play::SPlayerPosition::read,
    );
    assert_eq!(f64::from_bits(packet.x_bits), 10.5);
    assert_eq!(f64::from_bits(packet.y_bits), 64.0);
    assert_eq!(f64::from_bits(packet.z_bits), -20.3);
    assert_eq!(packet.collision, 0);
}

#[test]
fn play_player_rotation_roundtrip() {
    let packet: play::SPlayerRotation = write_then_read(
        |buf| {
            write_f32(buf, 90.0);
            write_f32(buf, 45.0);
            buf.write_u8(0).unwrap();
        },
        play::SPlayerRotation::read,
    );
    assert_eq!(f32::from_bits(packet.yaw_bits), 90.0);
    assert_eq!(f32::from_bits(packet.pitch_bits), 45.0);
    assert_eq!(packet.collision, 0);
}

#[test]
fn play_player_position_rotation_roundtrip() {
    let packet: play::SPlayerPositionRotation = write_then_read(
        |buf| {
            write_f64(buf, 0.0);
            write_f64(buf, 64.0);
            write_f64(buf, 0.0);
            write_f32(buf, 180.0);
            write_f32(buf, 0.0);
            buf.write_u8(0).unwrap();
        },
        play::SPlayerPositionRotation::read,
    );
    assert_eq!(f64::from_bits(packet.x_bits), 0.0);
    assert_eq!(f32::from_bits(packet.yaw_bits), 180.0);
}

#[test]
fn play_set_player_ground_roundtrip() {
    let packet: play::SSetPlayerGround = write_then_read(
        |buf| {
            buf.write_bool(true).unwrap();
            buf.write_u8(0).unwrap();
        },
        play::SSetPlayerGround::read,
    );
    assert!(packet.on_ground);
    assert_eq!(packet.collision, 0);
}

#[test]
fn play_use_item_on_roundtrip() {
    let packet: play::SUseItemOn = write_then_read(
        |buf| {
            buf.write_var_int(&VarInt(0)).unwrap();
            buf.write_i64_be(BlockPos::new(100, 64, -100).to_i64()).unwrap();
            buf.write_var_int(&VarInt(1)).unwrap();
            write_f32(buf, 0.5);
            write_f32(buf, 0.5);
            write_f32(buf, 0.5);
            buf.write_bool(false).unwrap();
            buf.write_bool(false).unwrap();
            buf.write_var_int(&VarInt(1)).unwrap();
        },
        play::SUseItemOn::read,
    );
    assert_eq!(packet.hand, VarInt(0));
    assert_eq!(packet.face, VarInt(1));
    assert_eq!(packet.location, BlockPos::new(100, 64, -100));
    assert_eq!(f32::from_bits(packet.cursor_y_bits), 0.5);
    assert_eq!(packet.sequence, VarInt(1));
}

#[test]
fn play_use_item_roundtrip() {
    let packet: play::SUseItem = write_then_read(
        |buf| {
            buf.write_var_int(&VarInt(0)).unwrap();
            buf.write_var_int(&VarInt(0)).unwrap();
            write_f32(buf, 0.0);
            write_f32(buf, 0.0);
        },
        play::SUseItem::read,
    );
    assert_eq!(packet.hand, VarInt(0));
}

#[test]
fn play_interact_roundtrip() {
    let packet: play::SInteract = write_then_read(
        |buf| {
            buf.write_var_int(&VarInt(42)).unwrap();
            buf.write_var_int(&VarInt(2)).unwrap();
            write_f32(buf, 1.5);
            write_f32(buf, 2.5);
            write_f32(buf, 3.5);
            buf.write_var_int(&VarInt(0)).unwrap();
            buf.write_bool(false).unwrap();
        },
        play::SInteract::read,
    );
    assert_eq!(packet.entity_id, VarInt(42));
    assert_eq!(
        packet.action,
        play::InteractAction::InteractAt {
            target_x_bits: 1.5f32.to_bits(),
            target_y_bits: 2.5f32.to_bits(),
            target_z_bits: 3.5f32.to_bits(),
            hand: VarInt(0),
        }
    );
    assert!(!packet.sneaking);
}

#[test]
fn play_interact_attack_has_no_hand() {
    let packet: play::SInteract = write_then_read(
        |buf| {
            buf.write_var_int(&VarInt(7)).unwrap();
            buf.write_var_int(&VarInt(1)).unwrap();
            buf.write_bool(true).unwrap();
        },
        play::SInteract::read,
    );
    assert_eq!(packet.action, play::InteractAction::Attack);
    assert!(packet.sneaking);
}

#[test]
fn play_interact_unknown_kind_is_invalid() {
    let mut buf = Vec::new();
    buf.write_var_int(&VarInt(7)).unwrap();
    buf.write_var_int(&VarInt(3)).unwrap();
    buf.write_bool(true).unwrap();
    let mut reader = ByteReader::new(&buf);
    assert_eq!(
        play::SInteract::read(&mut reader, &version()),
        Err(ReadingError::InvalidValue)
    );
}

#[test]
fn play_move_vehicle_roundtrip() {
    let packet: play::SMoveVehicle = write_then_read(
        |buf| {
            write_f64(buf, 0.0);
            write_f64(buf, 64.0);
            write_f64(buf, 0.0);
            write_f32(buf, 0.0);
            write_f32(buf, 0.0);
        },
        play::SMoveVehicle::read,
    );
    assert_eq!(f64::from_bits(packet.y_bits), 64.0);
}

#[test]
fn play_chunk_batch_roundtrip() {
    let packet: play::SChunkBatch = write_then_read(
        |buf| {
            write_f32(buf, 10.0);
        },
        play::SChunkBatch::read,
    );
    assert_eq!(f32::from_bits(packet.chunks_per_tick_bits), 10.0);
}

#[test]
fn play_chunk_batch_short_input_is_incomplete() {
    let buf = vec![0x41u8, 0x20];
    let mut reader = ByteReader::new(&buf);
    assert_eq!(
        play::SChunkBatch::read(&mut reader, &version()),
        Err(ReadingError::Incomplete)
    );
}

#[test]
fn zero_values_roundtrip() {
    let packet: play::SPlayerPosition = write_then_read(
        |buf| {
            write_f64(buf, 0.0);
            write_f64(buf, 0.0);
            write_f64(buf, 0.0);
            buf.write_u8(0).unwrap();
        },
        play::SPlayerPosition::read,
    );
    assert_eq!(f64::from_bits(packet.x_bits), 0.0);
}

// ---------------------------------------------------------------------------
// Login, configuration and play packets carrying byte arrays and UUIDs
// ---------------------------------------------------------------------------

#[test]
fn encryption_response_roundtrip() {
    let packet: login::SEncryptionResponse = write_then_read(
        |buf| {
            let secret: &[u8] = &[0xAB; 128];
            buf.write_var_int(&VarInt(secret.len() as i32)).unwrap();
            buf.write_slice(secret).unwrap();
            let token: &[u8] = &[0xCD; 16];
            buf.write_var_int(&VarInt(token.len() as i32)).unwrap();
            buf.write_slice(token).unwrap();
        },
        login::SEncryptionResponse::read,
    );
    assert_eq!(packet.shared_secret.as_slice(), &[0xABu8; 128]);
    assert_eq!(packet.verify_token.as_slice(), &[0xCDu8; 16]);
}

#[test]
fn login_plugin_response_roundtrip() {
    let packet: login::SLoginPluginResponse = write_then_read(
        |buf| {
            buf.write_var_int(&VarInt(1)).unwrap();
            buf.write_bool(true).unwrap();
            let payload: &[u8] = &[0x01, 0x02, 0x03];
            buf.write_var_int(&VarInt(payload.len() as i32)).unwrap();
            buf.write_slice(payload).unwrap();
        },
        login::SLoginPluginResponse::read,
    );
    assert_eq!(packet.message_id, VarInt(1));
    assert_eq!(packet.data.as_deref(), Some(&[0x01u8, 0x02, 0x03][..]));
}

#[test]
fn login_plugin_response_without_answer() {
    let packet: login::SLoginPluginResponse = write_then_read(
        |buf| {
            buf.write_var_int(&VarInt(9)).unwrap();
            buf.write_bool(false).unwrap();
        },
        login::SLoginPluginResponse::read,
    );
    assert_eq!(packet.message_id, VarInt(9));
    assert!(packet.data.is_none());
}

#[test]
fn encryption_response_negative_length_fails() {
    let mut buf = Vec::new();
    buf.write_var_int(&VarInt(-1)).unwrap();
    let mut reader = ByteReader::new(&buf);
    assert!(matches!(
        login::SEncryptionResponse::read(&mut reader, &version()),
        Err(ReadingError::NegativeLength)
    ));
}

#[test]
fn config_resource_pack_roundtrip() {
    let uuid: u128 = 0;
    let packet: config::SConfigResourcePack = write_then_read(
        |buf| {
            buf.write_slice(&uuid.to_be_bytes()).unwrap();
            buf.write_var_int(&VarInt(3)).unwrap();
        },
        config::SConfigResourcePack::read,
    );
    assert_eq!(packet.uuid, uuid);
    assert_eq!(packet.result, VarInt(3));
}

#[test]
fn play_player_session_roundtrip() {
    let uuid: u128 = 0;
    let packet: play::SPlayerSession = write_then_read(
        |buf| {
            buf.write_slice(&uuid.to_be_bytes()).unwrap();
            buf.write_i64_be(1_234_567_890).unwrap();
            buf.write_var_int(&VarInt(32)).unwrap();
            buf.write_slice(&[0xAAu8; 32]).unwrap();
            buf.write_var_int(&VarInt(256)).unwrap();
            buf.write_slice(&[0xBBu8; 256]).unwrap();
        },
        play::SPlayerSession::read,
    );
    assert_eq!(packet.session_id, uuid);
    assert_eq!(packet.expires_at, 1_234_567_890);
    assert_eq!(packet.public_key.len(), 32);
    assert_eq!(packet.key_signature.len(), 256);
}

#[test]
fn play_set_creative_slot_roundtrip() {
    let packet: play::SSetCreativeSlot = write_then_read(
        |buf| {
            buf.write_i16_be(36).unwrap();
            buf.write_bool(false).unwrap(); // no item
        },
        play::SSetCreativeSlot::read,
    );
    assert_eq!(packet.slot, 36);
    assert!(packet.clicked_item.is_none());
}

#[test]
fn play_set_creative_slot_with_item() {
    let packet: play::SSetCreativeSlot = write_then_read(
        |buf| {
            buf.write_i16_be(9).unwrap();
            buf.write_var_int(&VarInt(3)).unwrap();
            buf.write_slice(&[0x05, 0x00, 0x00]).unwrap();
        },
        play::SSetCreativeSlot::read,
    );
    assert_eq!(packet.slot, 9);
    let item = packet.clicked_item.unwrap();
    assert_eq!(item.count, 3);
    assert_eq!(item.data, vec![0x05, 0x00, 0x00]);
}

#[test]
fn play_change_game_mode_roundtrip() {
    let packet: play::SChangeGameMode = write_then_read(
        |buf| {
            buf.write_u8(1).unwrap(); // Survival
        },
        play::SChangeGameMode::read,
    );
    assert_eq!(packet.game_mode, play::GameMode::Survival);
}

#[test]
fn play_change_game_mode_unknown_byte_is_invalid() {
    let buf = vec![9u8];
    let mut reader = ByteReader::new(&buf);
    assert_eq!(
        play::SChangeGameMode::read(&mut reader, &version()),
        Err(ReadingError::InvalidValue)
    );
}
