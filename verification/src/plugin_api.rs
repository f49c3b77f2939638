//! Plain data of the native plugin API: version negotiation, metadata,
//! log levels, command senders and event payloads.

use vstd::prelude::*;

verus! {

// ---------------------------------------------------------------------------
// Versioning
// ---------------------------------------------------------------------------

/// Semantic version used to negotiate API compatibility between the server
/// and a native plugin.  Versions with the same `major` are compatible;
/// `minor` and `patch` are informational only.
#[derive(Debug, Clone, Copy, PartialEq, Eq, Structural, Hash)]
pub struct PluginApiVersion {
    /// Breaking-change counter.
    pub major: u32,
    /// Feature-add counter.
    pub minor: u32,
    /// Bug-fix counter.
    pub patch: u32,
}

/// The packed form `(major << 22) | (minor << 12) | patch`, with `major` and
/// `minor` clamped to 10 bits and `patch` to 12 bits.
pub open spec fn packed_value(v: PluginApiVersion) -> nat {
    let major: nat = if v.major > 0x3FF { 0x3FF } else { v.major as nat };
    let minor: nat = if v.minor > 0x3FF { 0x3FF } else { v.minor as nat };
    let patch: nat = if v.patch > 0xFFF { 0xFFF } else { v.patch as nat };
    major * 0x40_0000 + minor * 0x1000 + patch
}

/// The version a packed `u32` denotes.
pub open spec fn unpacked_value(raw: u32) -> PluginApiVersion {
    PluginApiVersion {
        major: ((raw as nat / 0x40_0000) % 0x400) as u32,
        minor: ((raw as nat / 0x1000) % 0x400) as u32,
        patch: (raw as nat % 0x1000) as u32,
    }
}

/// Versions whose fields fit the packed form without clamping.
pub open spec fn packable(v: PluginApiVersion) -> bool {
    v.major <= 0x3FF && v.minor <= 0x3FF && v.patch <= 0xFFF
}

impl PluginApiVersion {
    /// Current API version of this server build (2.0.0).
    pub fn current() -> (v: Self)
        ensures
            v == (PluginApiVersion { major: 2, minor: 0, patch: 0 }),
    {
        PluginApiVersion { major: 2, minor: 0, patch: 0 }
    }

    /// Returns `true` if `other` is compatible with this version: both
    /// share the same `major` number.
    pub fn compatible_with(&self, other: &Self) -> (b: bool)
        ensures
            b == (self.major == other.major),
    {
        self.major == other.major
    }

    /// Encode the version as a single `u32` packed as
    /// `(major << 22) | (minor << 12) | patch`, clamping each field to its
    /// bit width.
    pub fn packed(&self) -> (p: u32)
        ensures
            p == packed_value(*self),
    {
        let major = if self.major > 0x3FF {
            0x3FF
        } else {
            self.major
        };
        let minor = if self.minor > 0x3FF {
            0x3FF
        } else {
            self.minor
        };
        let patch = if self.patch > 0xFFF {
            0xFFF
        } else {
            self.patch
        };
        let p = (major << 22) | (minor << 12) | patch;
        proof {
            lemma_pack_bits(major, minor, patch);
        }
        p
    }

    /// Decode a version packed by [`Self::packed`].
    pub fn from_packed(raw: u32) -> (v: Self)
        ensures
            v == unpacked_value(raw),
    {
        let v = PluginApiVersion {
            major: (raw >> 22) & 0x3FF,
            minor: (raw >> 12) & 0x3FF,
            patch: raw & 0xFFF,
        };
        proof {
            lemma_unpack_bits(raw);
        }
        v
    }
}

proof fn lemma_pack_bits(major: u32, minor: u32, patch: u32)
    requires
        major <= 0x3FF,
        minor <= 0x3FF,
        patch <= 0xFFF,
    ensures
        ((major << 22) | (minor << 12) | patch) == major * 0x40_0000 + minor * 0x1000 + patch,
{
    assert(((major << 22) | (minor << 12) | patch) == major * 0x40_0000 + minor * 0x1000 + patch)
        by (bit_vector)
        requires
            major <= 0x3FF,
            minor <= 0x3FF,
            patch <= 0xFFF,
    ;
}

proof fn lemma_unpack_bits(raw: u32)
    ensures
        (raw >> 22) & 0x3FF == (raw / 0x40_0000) % 0x400,
        (raw >> 12) & 0x3FF == (raw / 0x1000) % 0x400,
        raw & 0xFFF == raw % 0x1000,
{
    assert((raw >> 22) & 0x3FF == (raw / 0x40_0000) % 0x400) by (bit_vector);
    assert((raw >> 12) & 0x3FF == (raw / 0x1000) % 0x400) by (bit_vector);
    assert(raw & 0xFFF == raw % 0x1000) by (bit_vector);
}

/// Unpacking a packed version gives it back when its fields fit their bit
/// widths.
pub proof fn lemma_pack_unpack(v: PluginApiVersion)
    requires
        packable(v),
    ensures
        packed_value(v) < 0x1_0000_0000,
        unpacked_value(packed_value(v) as u32) == v,
{
    let (a, b, c) = (v.major as int, v.minor as int, v.patch as int);
    let raw = a * 0x40_0000 + b * 0x1000 + c;
    assert(raw / 0x40_0000 == a && (raw / 0x1000) % 0x400 == b && raw % 0x1000 == c)
        by (nonlinear_arith)
        requires
            0 <= a <= 0x3FF,
            0 <= b <= 0x3FF,
            0 <= c <= 0xFFF,
            raw == a * 0x40_0000 + b * 0x1000 + c,
    ;
}

/// Packing the version a `u32` denotes gives the same `u32` back.
pub proof fn lemma_unpack_pack(raw: u32)
    ensures
        packable(unpacked_value(raw)),
        packed_value(unpacked_value(raw)) == raw,
{
    let r = raw as int;
    assert(r == ((r / 0x40_0000) % 0x400) * 0x40_0000 + ((r / 0x1000) % 0x400) * 0x1000 + r
        % 0x1000 && (r / 0x40_0000) % 0x400 <= 0x3FF && (r / 0x1000) % 0x400 <= 0x3FF && r
        % 0x1000 <= 0xFFF) by (nonlinear_arith)
        requires
            0 <= r < 0x1_0000_0000,
    ;
}

/// The packed form's bit layout: for a version whose fields fit, the
/// packed value is `(major << 22) | (minor << 12) | patch`, so major sits in
/// the top 10 bits, minor in the 10 below it and patch in the low 12.
pub proof fn lemma_packed_bit_layout(v: PluginApiVersion)
    requires
        packable(v),
    ensures
        packed_value(v) == ((v.major << 22u32) | (v.minor << 12u32) | v.patch),
        (packed_value(v) as u32) >> 22u32 == v.major,
        ((packed_value(v) as u32) >> 12u32) & 0x3FFu32 == v.minor,
        (packed_value(v) as u32) & 0xFFFu32 == v.patch,
{
    let a = v.major;
    let b = v.minor;
    let c = v.patch;
    assert(a * 0x40_0000 + b * 0x1000 + c == ((a << 22u32) | (b << 12u32) | c)) by (bit_vector)
        requires
            a <= 0x3FF,
            b <= 0x3FF,
            c <= 0xFFF,
    ;
    let p: u32 = ((a << 22u32) | (b << 12u32) | c);
    assert(p >> 22u32 == a && (p >> 12u32) & 0x3FFu32 == b && p & 0xFFFu32 == c) by (bit_vector)
        requires
            a <= 0x3FF,
            b <= 0x3FF,
            c <= 0xFFF,
            p == ((a << 22u32) | (b << 12u32) | c),
    ;
}

/// Compatibility is an equivalence: every version is compatible with
/// itself, compatibility is symmetric, and it carries over chains.
pub proof fn lemma_compatibility_equivalence(
    a: PluginApiVersion,
    b: PluginApiVersion,
    c: PluginApiVersion,
)
    ensures
        a.major == a.major,
        (a.major == b.major) == (b.major == a.major),
        a.major == b.major && b.major == c.major ==> a.major == c.major,
{
}

/// Why a plugin's API version cannot be accepted.
#[derive(Debug, Clone, Copy, PartialEq, Eq, Structural)]
pub enum VersionCheckError {
    /// The plugin was built against a different `major` version.
    Mismatch { plugin: PluginApiVersion, server: PluginApiVersion },
}

/// Decide whether a plugin whose packed API version is `plugin_raw` may be
/// loaded by a server whose packed API version is `server_raw`.  On success
/// the plugin's unpacked version is returned.
pub fn check_plugin_api_version(plugin_raw: u32, server_raw: u32) -> (res: Result<
    PluginApiVersion,
    VersionCheckError,
>)
    ensures
        unpacked_value(plugin_raw).major == unpacked_value(server_raw).major ==> res == Ok::<
            PluginApiVersion,
            VersionCheckError,
        >(unpacked_value(plugin_raw)),
        unpacked_value(plugin_raw).major != unpacked_value(server_raw).major ==> res == Err::<
            PluginApiVersion,
            VersionCheckError,
        >(
            VersionCheckError::Mismatch {
                plugin: unpacked_value(plugin_raw),
                server: unpacked_value(server_raw),
            },
        ),
{
    let plugin = PluginApiVersion::from_packed(plugin_raw);
    let server = PluginApiVersion::from_packed(server_raw);
    if !server.compatible_with(&plugin) {
        return Err(VersionCheckError::Mismatch { plugin, server });
    }
    Ok(plugin)
}

// ---------------------------------------------------------------------------
// Metadata, logging, commands
// ---------------------------------------------------------------------------

/// Plugin metadata as the server keeps it, with owned strings.
#[derive(Debug, Clone)]
pub struct OwnedPluginMetadata {
    pub name: String,
    pub version: String,
    pub authors: Vec<String>,
    pub description: String,
    pub dependencies: Vec<String>,
    pub permissions: Vec<String>,
    pub api_version: PluginApiVersion,
}

/// Log severity level used by native plugins.
#[derive(Debug, Clone, Copy, PartialEq, Eq, Structural)]
pub enum LogLevel {
    Error,
    Warn,
    Info,
    Debug,
    Trace,
}

impl LogLevel {
    /// The level's number on the C ABI (0 for `Error` up to 4 for `Trace`).
    pub fn code(&self) -> (c: u32)
        ensures
            c == log_level_code(*self),
    {
        match self {
            LogLevel::Error => 0,
            LogLevel::Warn => 1,
            LogLevel::Info => 2,
            LogLevel::Debug => 3,
            LogLevel::Trace => 4,
        }
    }
}

/// C ABI number of each log level.
pub open spec fn log_level_code(l: LogLevel) -> u32 {
    match l {
        LogLevel::Error => 0,
        LogLevel::Warn => 1,
        LogLevel::Info => 2,
        LogLevel::Debug => 3,
        LogLevel::Trace => 4,
    }
}

/// Codes returned by event callbacks to control event propagation.
#[derive(Debug, Clone, Copy, PartialEq, Eq, Structural)]
pub enum EventCallbackResult {
    /// Continue normal event processing.
    Continue,
    /// Stop processing this event (no further handlers called).
    Stop,
    /// Cancel the event (for cancellable events only).
    Cancel,
}

/// C ABI number of each callback result.
pub open spec fn callback_result_code(r: EventCallbackResult) -> u32 {
    match r {
        EventCallbackResult::Continue => 0,
        EventCallbackResult::Stop => 1,
        EventCallbackResult::Cancel => 2,
    }
}

impl EventCallbackResult {
    /// The result's number on the C ABI.
    pub fn code(&self) -> (c: u32)
        ensures
            c == callback_result_code(*self),
    {
        match self {
            EventCallbackResult::Continue => 0,
            EventCallbackResult::Stop => 1,
            EventCallbackResult::Cancel => 2,
        }
    }

    /// The callback result a C ABI number denotes, if any.
    pub fn from_code(c: u32) -> (r: Option<EventCallbackResult>)
        ensures
            r matches Some(x) ==> callback_result_code(x) == c,
            r is None <==> c > 2,
    {
        if c == 0 {
            Some(EventCallbackResult::Continue)
        } else if c == 1 {
            Some(EventCallbackResult::Stop)
        } else if c == 2 {
            Some(EventCallbackResult::Cancel)
        } else {
            None
        }
    }
}

/// Who executed a command.
#[derive(Debug, Clone, Copy, PartialEq, Eq, Structural)]
pub enum CommandSenderKind {
    Player,
    Console,
    CommandBlock,
    Rcon,
}

/// Handle representing the sender of a command: its kind and a
/// server-internal identifier (e.g. a player's UUID bytes).
#[derive(Debug, Clone, Copy)]
pub struct CommandSender {
    pub kind: CommandSenderKind,
    pub id: [u8; 16],
}

/// Identifier of an event type in the server's event registry.
#[derive(Debug, Clone, Copy, PartialEq, Eq, Structural, Hash)]
pub struct EventTypeId(pub u32);

// ---------------------------------------------------------------------------
// Events
// ---------------------------------------------------------------------------

/// Well-known event type identifiers shared between server and plugins.
#[derive(Debug, Clone, Copy, PartialEq, Eq, Structural, Hash)]
pub enum WellKnownEventId {
    ServerStartup,
    ServerTick,
    ServerShutdown,
    PlayerJoin,
    PlayerQuit,
    PlayerChat,
    PlayerDeath,
    PlayerRespawn,
    PlayerMove,
    BlockBreak,
    BlockPlace,
    BlockInteract,
    PacketReceived,
    PacketSent,
    WorldLoad,
    WorldSave,
    CustomStart,
}

/// Registry number of each well-known event.
pub open spec fn event_id_value(e: WellKnownEventId) -> u32 {
    match e {
        WellKnownEventId::ServerStartup => 1,
        WellKnownEventId::ServerTick => 2,
        WellKnownEventId::ServerShutdown => 3,
        WellKnownEventId::PlayerJoin => 10,
        WellKnownEventId::PlayerQuit => 11,
        WellKnownEventId::PlayerChat => 12,
        WellKnownEventId::PlayerDeath => 13,
        WellKnownEventId::PlayerRespawn => 14,
        WellKnownEventId::PlayerMove => 15,
        WellKnownEventId::BlockBreak => 20,
        WellKnownEventId::BlockPlace => 21,
        WellKnownEventId::BlockInteract => 22,
        WellKnownEventId::PacketReceived => 30,
        WellKnownEventId::PacketSent => 31,
        WellKnownEventId::WorldLoad => 40,
        WellKnownEventId::WorldSave => 41,
        WellKnownEventId::CustomStart => 1024,
    }
}

impl WellKnownEventId {
    /// The event's registry number.
    pub fn id(&self) -> (v: u32)
        ensures
            v == event_id_value(*self),
    {
        match self {
            WellKnownEventId::ServerStartup => 1,
            WellKnownEventId::ServerTick => 2,
            WellKnownEventId::ServerShutdown => 3,
            WellKnownEventId::PlayerJoin => 10,
            WellKnownEventId::PlayerQuit => 11,
            WellKnownEventId::PlayerChat => 12,
            WellKnownEventId::PlayerDeath => 13,
            WellKnownEventId::PlayerRespawn => 14,
            WellKnownEventId::PlayerMove => 15,
            WellKnownEventId::BlockBreak => 20,
            WellKnownEventId::BlockPlace => 21,
            WellKnownEventId::BlockInteract => 22,
            WellKnownEventId::PacketReceived => 30,
            WellKnownEventId::PacketSent => 31,
            WellKnownEventId::WorldLoad => 40,
            WellKnownEventId::WorldSave => 41,
            WellKnownEventId::CustomStart => 1024,
        }
    }

    /// The well-known event with registry number `v`, if there is one.
    pub fn from_id(v: u32) -> (e: Option<WellKnownEventId>)
        ensures
            e matches Some(x) ==> event_id_value(x) == v,
            (exists|x: WellKnownEventId| event_id_value(x) == v) ==> e is Some,
    {
        if v == 1 {
            Some(WellKnownEventId::ServerStartup)
        } else if v == 2 {
            Some(WellKnownEventId::ServerTick)
        } else if v == 3 {
            Some(WellKnownEventId::ServerShutdown)
        } else if v == 10 {
            Some(WellKnownEventId::PlayerJoin)
        } else if v == 11 {
            Some(WellKnownEventId::PlayerQuit)
        } else if v == 12 {
            Some(WellKnownEventId::PlayerChat)
        } else if v == 13 {
            Some(WellKnownEventId::PlayerDeath)
        } else if v == 14 {
            Some(WellKnownEventId::PlayerRespawn)
        } else if v == 15 {
            Some(WellKnownEventId::PlayerMove)
        } else if v == 20 {
            Some(WellKnownEventId::BlockBreak)
        } else if v == 21 {
            Some(WellKnownEventId::BlockPlace)
        } else if v == 22 {
            Some(WellKnownEventId::BlockInteract)
        } else if v == 30 {
            Some(WellKnownEventId::PacketReceived)
        } else if v == 31 {
            Some(WellKnownEventId::PacketSent)
        } else if v == 40 {
            Some(WellKnownEventId::WorldLoad)
        } else if v == 41 {
            Some(WellKnownEventId::WorldSave)
        } else if v == 1024 {
            Some(WellKnownEventId::CustomStart)
        } else {
            None
        }
    }
}

/// The numbers the C ABI fixes for the well-known events, which native
/// plugins register for by number: server startup, tick and shutdown are
/// 1 to 3; player join, quit, chat, death, respawn and move are 10 to 15;
/// block break, place and interact are 20 to 22; packets received and sent
/// are 30 and 31; world load and save are 40 and 41; custom events start at
/// 1024. No two events share a number, and every number names at most one
/// event.
pub proof fn lemma_event_ids_match_abi(a: WellKnownEventId, b: WellKnownEventId)
    ensures
        event_id_value(WellKnownEventId::ServerStartup) == 1,
        event_id_value(WellKnownEventId::ServerTick) == 2,
        event_id_value(WellKnownEventId::ServerShutdown) == 3,
        event_id_value(WellKnownEventId::PlayerJoin) == 10,
        event_id_value(WellKnownEventId::PlayerQuit) == 11,
        event_id_value(WellKnownEventId::PlayerChat) == 12,
        event_id_value(WellKnownEventId::PlayerDeath) == 13,
        event_id_value(WellKnownEventId::PlayerRespawn) == 14,
        event_id_value(WellKnownEventId::PlayerMove) == 15,
        event_id_value(WellKnownEventId::BlockBreak) == 20,
        event_id_value(WellKnownEventId::BlockPlace) == 21,
        event_id_value(WellKnownEventId::BlockInteract) == 22,
        event_id_value(WellKnownEventId::PacketReceived) == 30,
        event_id_value(WellKnownEventId::PacketSent) == 31,
        event_id_value(WellKnownEventId::WorldLoad) == 40,
        event_id_value(WellKnownEventId::WorldSave) == 41,
        event_id_value(WellKnownEventId::CustomStart) == 1024,
        event_id_value(a) == event_id_value(b) ==> a == b,
{
}

/// The numbers the C ABI fixes for log levels (error 0, warn 1, info 2,
/// debug 3, trace 4) and for callback results (continue 0, stop 1,
/// cancel 2); distinct values have distinct numbers.
pub proof fn lemma_codes_match_abi(
    l1: LogLevel,
    l2: LogLevel,
    r1: EventCallbackResult,
    r2: EventCallbackResult,
)
    ensures
        log_level_code(LogLevel::Error) == 0,
        log_level_code(LogLevel::Warn) == 1,
        log_level_code(LogLevel::Info) == 2,
        log_level_code(LogLevel::Debug) == 3,
        log_level_code(LogLevel::Trace) == 4,
        callback_result_code(EventCallbackResult::Continue) == 0,
        callback_result_code(EventCallbackResult::Stop) == 1,
        callback_result_code(EventCallbackResult::Cancel) == 2,
        log_level_code(l1) == log_level_code(l2) ==> l1 == l2,
        callback_result_code(r1) == callback_result_code(r2) ==> r1 == r2,
{
}

/// Data for the `PlayerChat` event.
#[derive(Debug, Clone, Copy)]
pub struct PlayerChatEventData {
    /// 16-byte UUID of the player who sent the message.
    pub player_uuid: [u8; 16],
    /// NUL-terminated message content.
    pub message: [i8; 256],
    /// Whether this event has been cancelled.
    pub cancelled: bool,
}

/// Data for the `PlayerJoin` event.
#[derive(Debug, Clone, Copy)]
pub struct PlayerJoinEventData {
    /// 16-byte UUID of the joining player.
    pub player_uuid: [u8; 16],
    /// NUL-terminated player name.
    pub player_name: [i8; 64],
}

/// Data for the `BlockBreak` event.
#[derive(Debug, Clone, Copy)]
pub struct BlockBreakEventData {
    pub player_uuid: [u8; 16],
    pub x: i32,
    pub y: i32,
    pub z: i32,
    /// Resource location of the block (e.g. `"minecraft:stone"`).
    pub block_id: [i8; 128],
    pub cancelled: bool,
}

} // verus!
