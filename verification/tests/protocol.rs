//! Tests of the gateway message types, the dump-header validation, and the
//! authorization vocabulary.

use sled_storage::authz::Action;
use sled_storage::authz::Perm;
use sled_storage::dumphdr::DumpHdrError;
use sled_storage::dumphdr::dump_flag_is_valid;
use sled_storage::messages::IGNITION_FLT_SP;
use sled_storage::messages::IGNITION_POWER;
use sled_storage::messages::IgnitionFlags;
use sled_storage::messages::IgnitionState;
use sled_storage::messages::SerialConsole;
use sled_storage::messages::SpComponent;

fn header(magic: u32, version: u32, flags: u32) -> Vec<u8> {
    let mut h = Vec::new();
    h.extend_from_slice(&magic.to_be_bytes());
    h.extend_from_slice(&version.to_be_bytes());
    h.extend_from_slice(&flags.to_be_bytes());
    h
}

#[test]
fn dump_header_valid_flag() {
    assert_eq!(dump_flag_is_valid(&header(0xdefec8ed, 10, 1)), Ok(true));
    assert_eq!(dump_flag_is_valid(&header(0xdefec8ed, 10, 0)), Ok(false));
    // Only the lowest bit of the flag word matters.
    assert_eq!(dump_flag_is_valid(&header(0xdefec8ed, 10, 3)), Ok(true));
    assert_eq!(dump_flag_is_valid(&header(0xdefec8ed, 10, 2)), Ok(false));
}

#[test]
fn dump_header_bad_magic() {
    assert_eq!(
        dump_flag_is_valid(&header(0xdeadbeef, 10, 1)),
        Err(DumpHdrError::InvalidMagic(0xdeadbeef))
    );
}

#[test]
fn dump_header_bad_version() {
    assert_eq!(
        dump_flag_is_valid(&header(0xdefec8ed, 9, 1)),
        Err(DumpHdrError::InvalidVersion(9))
    );
}

#[test]
fn dump_header_short_read() {
    assert_eq!(dump_flag_is_valid(&[0xde, 0xfe]), Err(DumpHdrError::IoError));
    assert_eq!(dump_flag_is_valid(&[]), Err(DumpHdrError::IoError));
}

#[test]
fn ignition_flag_operations() {
    let mut flags = IgnitionFlags::empty();
    assert!(!flags.contains(IGNITION_POWER));
    flags.insert(IGNITION_POWER);
    assert!(flags.contains(IGNITION_POWER));
    flags.insert(IGNITION_FLT_SP);
    assert!(flags.contains(IGNITION_POWER | IGNITION_FLT_SP));
    flags.remove(IGNITION_POWER);
    assert!(!flags.contains(IGNITION_POWER));
    assert!(flags.contains(IGNITION_FLT_SP));

    let state = IgnitionState { id: 1, flags: IgnitionFlags { bits: IGNITION_POWER } };
    assert!(state.powered());
    let dark = IgnitionState { id: 2, flags: IgnitionFlags { bits: 0 } };
    assert!(!dark.powered());
}

#[test]
fn serial_console_packs_line() {
    let line = "hello world\n";
    let console = SerialConsole::new(
        SpComponent { id: *b"0000111122223333" },
        12345,
        line.as_bytes(),
    )
    .expect("line fits in one packet");
    assert_eq!(console.len, line.len() as u8);
    assert_eq!(&console.data[..line.len()], line.as_bytes());
    assert_eq!(console.offset, 12345);

    let too_long = [0u8; 33];
    assert!(SerialConsole::new(SpComponent { id: [0; 16] }, 0, &too_long).is_none());
}

#[test]
fn actions_map_to_permissions() {
    assert_eq!(Perm::from(&Action::Query), Perm::Query);
    assert_eq!(Perm::from(&Action::Read), Perm::Read);
    assert_eq!(Perm::from(&Action::Modify), Perm::Modify);
    assert_eq!(Perm::from(&Action::Delete), Perm::Modify);
    assert_eq!(Perm::from(&Action::ListChildren), Perm::ListChildren);
    assert_eq!(Perm::from(&Action::CreateChild), Perm::CreateChild);
}

#[test]
fn permission_names_match_the_policy_text() {
    assert_eq!(Perm::Query.name(), "query");
    assert_eq!(Perm::Read.name(), "read");
    assert_eq!(Perm::Modify.name(), "modify");
    assert_eq!(Perm::ListChildren.name(), "list_children");
    assert_eq!(Perm::CreateChild.name(), "create_child");
}
