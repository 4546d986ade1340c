//! Tests of the persisted-configuration codec, the address codec, and the
//! numeral codecs under them.

use sled_storage::config::encode_config;
use sled_storage::config::parse_config;
use sled_storage::dataset::DatasetKind;
use sled_storage::dataset::DatasetName;
use sled_storage::dataset::PartitionInfo;
use sled_storage::net::IpValue;
use sled_storage::net::NetAddress;
use sled_storage::net::parse_addr;
use sled_storage::net::write_addr;
use sled_storage::num::parse_dec_u16;
use sled_storage::num::parse_hex_u16;
use sled_storage::num::write_dec_u64;
use sled_storage::num::write_hex_u16;

fn v4(a: u8, b: u8, c: u8, d: u8, port: u16) -> NetAddress {
    NetAddress { ip: IpValue::V4(a, b, c, d), port }
}

fn v6(gs: [u16; 8], port: u16) -> NetAddress {
    NetAddress {
        ip: IpValue::V6(gs[0], gs[1], gs[2], gs[3], gs[4], gs[5], gs[6], gs[7]),
        port,
    }
}

fn format_addr(a: &NetAddress) -> Vec<u8> {
    let mut out = Vec::new();
    write_addr(a, &mut out);
    out
}

#[test]
fn config_roundtrip_v4() {
    let info = PartitionInfo::new(DatasetKind::CockroachDb, v4(127, 0, 0, 1, 9000));
    let bytes = encode_config(&info);
    let back = parse_config(&bytes).expect("written configuration must read back");
    assert_eq!(back.kind, DatasetKind::CockroachDb);
    assert_eq!(back.data_directory, info.data_directory);
    assert_eq!(back.address, info.address);
    assert_eq!(back.name, info.name);
}

#[test]
fn config_roundtrip_v6() {
    let info = PartitionInfo::new(
        DatasetKind::Crucible,
        v6([0xfe80, 0, 0, 0, 0x1, 0x2, 0x3, 0x4], 32221),
    );
    let bytes = encode_config(&info);
    let back = parse_config(&bytes).expect("written configuration must read back");
    assert_eq!(back.kind, DatasetKind::Crucible);
    assert_eq!(back.data_directory, info.data_directory);
    assert_eq!(back.address, info.address);
}

#[test]
fn config_text_is_exact() {
    let info = PartitionInfo::new(DatasetKind::CockroachDb, v4(127, 0, 0, 1, 9000));
    let bytes = encode_config(&info);
    let expected = "kind = \"cockroachdb\"\ndata_directory = \"/data\"\naddress = \"127.0.0.1:9000\"\n";
    assert_eq!(String::from_utf8(bytes).unwrap(), expected);
}

#[test]
fn config_rejects_garbage() {
    assert!(parse_config(b"").is_none());
    assert!(parse_config(b"kind = \"cockroachdb\"").is_none());
    assert!(parse_config(b"not a config").is_none());
    assert!(
        parse_config(b"kind = \"widget\"\ndata_directory = \"/data\"\naddress = \"1.2.3.4:5\"\n")
            .is_none()
    );
    // Trailing bytes after the last line are rejected.
    assert!(parse_config(
        b"kind = \"cockroachdb\"\ndata_directory = \"/data\"\naddress = \"1.2.3.4:5\"\nx"
    )
    .is_none());
}

#[test]
fn address_text_is_exact() {
    assert_eq!(format_addr(&v4(127, 0, 0, 1, 9000)), b"127.0.0.1:9000".to_vec());
    assert_eq!(
        format_addr(&v6([0xfe80, 0, 0, 0, 1, 2, 3, 4], 443)),
        b"[fe80:0:0:0:1:2:3:4]:443".to_vec()
    );
}

#[test]
fn address_roundtrip() {
    let cases = [
        v4(0, 0, 0, 0, 0),
        v4(255, 255, 255, 255, 65535),
        v4(10, 0, 0, 5, 32221),
        v6([0, 0, 0, 0, 0, 0, 0, 1], 80),
        v6([0xffff, 0xffff, 0xffff, 0xffff, 0xffff, 0xffff, 0xffff, 0xffff], 65535),
    ];
    for a in cases {
        let text = format_addr(&a);
        assert_eq!(parse_addr(&text), Some(a));
    }
}

#[test]
fn address_parser_rejects_malformed_text() {
    for bad in [
        &b"127.0.0.1"[..],
        b"1.2.3:5",
        b"1.2.3.4.5:6",
        b"256.1.1.1:80",
        b"1.2.3.4:65536",
        b"1.2.3.4:",
        b"[1:2:3]:80",
        b"[1:2:3:4:5:6:7:8:9]:80",
        b"[1:2:3:4:5:6:7:8]80",
        b"[1:2:3:4:5:6:7:8]:",
        b"[1:2:3:4:5:6:7:fffff]:80",
        b"",
        b":80",
    ] {
        assert_eq!(parse_addr(bad), None, "accepted {:?}", String::from_utf8_lossy(bad));
    }
}

#[test]
fn address_parser_accepts_leading_zeros() {
    assert_eq!(parse_addr(b"010.0.0.1:0080"), Some(v4(10, 0, 0, 1, 80)));
}

#[test]
fn decimal_codec() {
    let mut out = Vec::new();
    write_dec_u64(0, &mut out);
    assert_eq!(out, b"0".to_vec());
    out.clear();
    write_dec_u64(65535, &mut out);
    assert_eq!(out, b"65535".to_vec());
    out.clear();
    write_dec_u64(18446744073709551615, &mut out);
    assert_eq!(out, b"18446744073709551615".to_vec());

    assert_eq!(parse_dec_u16(b"0"), Some(0));
    assert_eq!(parse_dec_u16(b"65535"), Some(65535));
    assert_eq!(parse_dec_u16(b"007"), Some(7));
    assert_eq!(parse_dec_u16(b"65536"), None);
    assert_eq!(parse_dec_u16(b"99999999999999999999"), None);
    assert_eq!(parse_dec_u16(b""), None);
    assert_eq!(parse_dec_u16(b"12a"), None);
}

#[test]
fn hexadecimal_codec() {
    let mut out = Vec::new();
    write_hex_u16(0, &mut out);
    assert_eq!(out, b"0".to_vec());
    out.clear();
    write_hex_u16(0xfe80, &mut out);
    assert_eq!(out, b"fe80".to_vec());

    assert_eq!(parse_hex_u16(b"0"), Some(0));
    assert_eq!(parse_hex_u16(b"ffff"), Some(0xffff));
    assert_eq!(parse_hex_u16(b"FE80"), None, "only lowercase digits are read");
    assert_eq!(parse_hex_u16(b"10000"), None);
    assert_eq!(parse_hex_u16(b""), None);
}

#[test]
fn dataset_name_joins_pool_and_dataset() {
    let n = DatasetName::new(b"pool", b"cockroachdb");
    assert_eq!(n.full(), b"pool/cockroachdb".to_vec());
}

#[test]
fn zone_prefix_and_image_follow_the_kind() {
    let info = PartitionInfo::new(DatasetKind::CockroachDb, v4(127, 0, 0, 1, 9000));
    assert_eq!(info.zone_prefix(), b"oxz_cockroachdb_".to_vec());
    assert_eq!(info.zone_image(), b"/opt/oxide/cockroachdb.tar.gz".to_vec());
    assert_eq!(info.name, b"cockroachdb".to_vec());
    assert_eq!(info.data_directory, b"/data".to_vec());
}

#[test]
fn startup_commands_are_the_service_procedure() {
    let info = PartitionInfo::new(DatasetKind::CockroachDb, v4(127, 0, 0, 1, 9000));
    let cmds = info.startup_commands().expect("cockroachdb has a startup procedure");
    assert_eq!(cmds.len(), 6);
    assert_eq!(
        String::from_utf8(cmds[0].clone()).unwrap(),
        "/usr/sbin/svccfg import /var/svc/manifest/site/cockroachdb/manifest.xml"
    );
    assert_eq!(
        String::from_utf8(cmds[1].clone()).unwrap(),
        "/usr/sbin/svccfg -s svc:system/illumos/cockroachdb setprop config/listen_addr=127.0.0.1:9000"
    );
    assert_eq!(
        String::from_utf8(cmds[2].clone()).unwrap(),
        "/usr/sbin/svccfg -s svc:system/illumos/cockroachdb setprop config/store=/data"
    );
    assert_eq!(
        String::from_utf8(cmds[5].clone()).unwrap(),
        "/usr/sbin/svcadm enable -t svc:/system/illumos/cockroachdb:default"
    );

    let crucible = PartitionInfo::new(DatasetKind::Crucible, v4(127, 0, 0, 1, 9000));
    assert!(crucible.startup_commands().is_none());
    let clickhouse = PartitionInfo::new(DatasetKind::Clickhouse, v4(127, 0, 0, 1, 9000));
    assert!(clickhouse.startup_commands().is_none());
}
