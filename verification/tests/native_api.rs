use pumpkin::plugin_metadata::parse_name_list;
use pumpkin::plugin_api::{
    check_plugin_api_version, EventCallbackResult, LogLevel, PluginApiVersion, VersionCheckError,
    WellKnownEventId,
};

#[test]
fn version_packing_roundtrip() {
    let v = PluginApiVersion { major: 2, minor: 1, patch: 3 };
    let packed = v.packed();
    assert_eq!(packed >> 22, 2);
    assert_eq!((packed >> 12) & 0x3FF, 1);
    assert_eq!(packed & 0xFFF, 3);
}

#[test]
fn version_compatibility() {
    let server = PluginApiVersion { major: 2, minor: 0, patch: 0 };
    let plugin_ok = PluginApiVersion { major: 2, minor: 5, patch: 99 };
    let plugin_bad = PluginApiVersion { major: 3, minor: 0, patch: 0 };

    assert!(server.compatible_with(&plugin_ok));
    assert!(!server.compatible_with(&plugin_bad));
}

#[test]
fn packed_fields_are_clamped() {
    let v = PluginApiVersion { major: 5000, minor: 2000, patch: 70000 };
    assert_eq!(v.packed(), (0x3FF << 22) | (0x3FF << 12) | 0xFFF);
}

#[test]
fn unpack_inverts_pack() {
    let v = PluginApiVersion { major: 7, minor: 1023, patch: 4095 };
    assert_eq!(PluginApiVersion::from_packed(v.packed()), v);
    for raw in [0u32, 1, 0x0040_0000, 0xFFFF_FFFF, 0x1234_5678] {
        assert_eq!(PluginApiVersion::from_packed(raw).packed(), raw);
    }
}

#[test]
fn current_version_is_two() {
    let c = PluginApiVersion::current();
    assert_eq!(c, PluginApiVersion { major: 2, minor: 0, patch: 0 });
    assert_eq!(c.packed(), 2 << 22);
}

#[test]
fn plugin_version_check() {
    let server = PluginApiVersion::current().packed();
    let ok = PluginApiVersion { major: 2, minor: 4, patch: 1 }.packed();
    assert_eq!(
        check_plugin_api_version(ok, server),
        Ok(PluginApiVersion { major: 2, minor: 4, patch: 1 })
    );
    let bad = PluginApiVersion { major: 3, minor: 0, patch: 0 }.packed();
    assert_eq!(
        check_plugin_api_version(bad, server),
        Err(VersionCheckError::Mismatch {
            plugin: PluginApiVersion { major: 3, minor: 0, patch: 0 },
            server: PluginApiVersion { major: 2, minor: 0, patch: 0 },
        })
    );
}

#[test]
fn abi_codes() {
    assert_eq!(LogLevel::Error.code(), 0);
    assert_eq!(LogLevel::Trace.code(), 4);
    assert_eq!(EventCallbackResult::Cancel.code(), 2);
    assert_eq!(EventCallbackResult::from_code(1), Some(EventCallbackResult::Stop));
    assert_eq!(EventCallbackResult::from_code(3), None);
    assert_eq!(WellKnownEventId::PlayerChat.id(), 12);
    assert_eq!(WellKnownEventId::from_id(1024), Some(WellKnownEventId::CustomStart));
    assert_eq!(WellKnownEventId::from_id(16), None);
}

#[test]
fn metadata_lists_are_split_and_trimmed() {
    assert_eq!(parse_name_list("Alice, Bob ,, Carol"), vec!["Alice", "Bob", "Carol"]);
    assert_eq!(parse_name_list(""), Vec::<String>::new());
    assert_eq!(parse_name_list(" , \t,"), Vec::<String>::new());
    assert_eq!(parse_name_list("solo"), vec!["solo"]);
    assert_eq!(parse_name_list("\u{3000}wide\u{a0}, x y "), vec!["wide", "x y"]);
}

#[test]
fn owned_metadata_from_fields() {
    let m = pumpkin::plugin_api::OwnedPluginMetadata::from_fields(
        String::from("demo"),
        String::from("1.0.0"),
        "a, b",
        String::from("A demo"),
        "",
        "perm.one,perm.two",
        PluginApiVersion::current(),
    );
    assert_eq!(m.name, "demo");
    assert_eq!(m.version, "1.0.0");
    assert_eq!(m.description, "A demo");
    assert_eq!(m.authors, parse_name_list("a,b"));
    assert!(m.dependencies.is_empty());
    assert_eq!(m.permissions, vec!["perm.one", "perm.two"]);
    assert_eq!(m.api_version, PluginApiVersion::current());
}
