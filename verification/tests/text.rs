use sn_core::address::{ChunkAddress, DbcAddress, NetworkAddress, RecordKey, RegisterAddress, XorName};
use sn_core::text::PrettyPrintRecordKey;

fn name() -> XorName {
    let mut bytes = [0u8; 32];
    for (i, byte) in bytes.iter_mut().enumerate() {
        *byte = i as u8 + 1;
    }
    XorName(bytes)
}

const NAME_HEX: &str = "0102030405060708090a0b0c0d0e0f101112131415161718191a1b1c1d1e1f20";

#[test]
fn a_record_key_is_written_in_hexadecimal_digits() {
    let key = PrettyPrintRecordKey::from(RecordKey(vec![0x00, 0x0f, 0xa0, 0xff]));
    assert_eq!(key.to_string(), "000fa0ff");
    assert_eq!(PrettyPrintRecordKey::from(RecordKey(vec![])).to_string(), "");
    assert_eq!(PrettyPrintRecordKey::from(RecordKey(name().to_vec())).to_string(), NAME_HEX);
    assert_eq!(PrettyPrintRecordKey(RecordKey(vec![1, 2])), PrettyPrintRecordKey::from(RecordKey(vec![1, 2])));
}

#[test]
fn peers_and_record_keys_are_shown_by_their_bytes() {
    assert_eq!(NetworkAddress::PeerId(vec![0xab, 0x01]).to_string(), "NetworkAddress::PeerId(ab01)");
    assert_eq!(NetworkAddress::RecordKey(vec![0x10, 0x09]).to_string(), "NetworkAddress::RecordKey(1009)");
    assert_eq!(NetworkAddress::PeerId(vec![]).to_string(), "NetworkAddress::PeerId()");
    assert_eq!(NetworkAddress::PeerId(vec![7; 3]).to_string(), format!("NetworkAddress::PeerId({})", hex::encode([7u8; 3])));
}

#[test]
fn data_addresses_are_shown_in_their_short_form() {
    let short = format!("{:?}", xor_name::XorName(name().0));
    assert_eq!(short, "010203(00000001)..");
    assert_eq!(
        NetworkAddress::from_chunk_address(ChunkAddress::new(name())).to_string(),
        "NetworkAddress::ChunkAddress(ChunkAddress(010203(00000001)..))"
    );
    assert_eq!(
        NetworkAddress::from_dbc_address(DbcAddress::new(name())).to_string(),
        "NetworkAddress::DbcAddress(DbcAddress(010203(00000001)..))"
    );
    assert_eq!(
        NetworkAddress::from_register_address(RegisterAddress::new(name(), 7)).to_string(),
        "NetworkAddress::RegisterAddress(RegisterAddress { name: 010203(00000001).., tag: 7 })"
    );
    assert_eq!(
        NetworkAddress::from_register_address(RegisterAddress::new(name(), 0)).to_string(),
        "NetworkAddress::RegisterAddress(RegisterAddress { name: 010203(00000001).., tag: 0 })"
    );
    assert_eq!(
        NetworkAddress::from_register_address(RegisterAddress::new(name(), u64::MAX)).to_string(),
        "NetworkAddress::RegisterAddress(RegisterAddress { name: 010203(00000001).., tag: 18446744073709551615 })"
    );
}

#[test]
fn addresses_are_logged_with_their_record_key() {
    assert_eq!(NetworkAddress::PeerId(vec![0xab, 0x01]).debug_string(), "NetworkAddress::PeerId( - ab01)");
    assert_eq!(NetworkAddress::RecordKey(vec![0x01]).debug_string(), "NetworkAddress::RecordKey( - 01)");
    assert_eq!(
        NetworkAddress::from_chunk_address(ChunkAddress::new(name())).debug_string(),
        format!("NetworkAddress::ChunkAddress(010203(00000001).. -  - {NAME_HEX})")
    );
    assert_eq!(
        NetworkAddress::from_dbc_address(DbcAddress::new(name())).debug_string(),
        format!("NetworkAddress::DbcAddress(010203(00000001).. -  - {NAME_HEX})")
    );
    let register = RegisterAddress::new(name(), 7);
    let id = register.xorname();
    assert_eq!(
        NetworkAddress::from_register_address(register).debug_string(),
        format!(
            "NetworkAddress::RegisterAddress({:?} -  - {})",
            xor_name::XorName(id.0),
            hex::encode(id.0)
        )
    );
}
