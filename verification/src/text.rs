//! How addresses and record keys are written out for people to read.

use crate::address::{NetworkAddress, RecordKey, XorName};
use vstd::prelude::*;

verus! {

/// The lower-case hexadecimal digit of a number below sixteen.
pub open spec fn hex_digit(nibble: u8) -> char {
    if nibble < 10 {
        ((48 + nibble) as u8) as char
    } else {
        ((87 + nibble) as u8) as char
    }
}

/// The bytes in lower-case hexadecimal digits, two for a byte.
pub open spec fn hex_lower(bytes: Seq<u8>) -> Seq<char>
    decreases bytes.len(),
{
    if bytes.len() == 0 {
        Seq::empty()
    } else {
        hex_lower(bytes.drop_last()) + seq![hex_digit(bytes.last() >> 4), hex_digit(bytes.last() & 15)]
    }
}

/// The number in decimal digits.
pub open spec fn decimal(number: nat) -> Seq<char>
    decreases number,
{
    if number < 10 {
        seq![((48 + number) as u8) as char]
    } else {
        decimal(number / 10) + seq![((48 + number % 10) as u8) as char]
    }
}

/// The eight binary digits of a byte, the most significant first.
pub open spec fn binary_digits(byte: u8) -> Seq<char> {
    Seq::new(
        8,
        |i: int|
            if (byte >> ((7 - i) as u8)) & 1 == 1 {
                '1'
            } else {
                '0'
            },
    )
}

/// The short form of a name: its first three bytes in hexadecimal digits,
/// the first byte in binary digits within brackets, and two dots.
pub open spec fn name_debug(name: Seq<u8>) -> Seq<char> {
    hex_lower(name.take(3)) + "("@ + binary_digits(name[0]) + ").."@
}

/// Calls `hex::encode`: two lower-case hexadecimal digits for each byte.
#[verifier::external_body]
fn hex_of(bytes: &Vec<u8>) -> (text: String)
    ensures
        text@ == hex_lower(bytes@),
{
    hex::encode(bytes)
}

/// Writes the bytes out with the `LowerHex` of `bytes::Bytes`, which gives
/// two lower-case hexadecimal digits for each byte and does not pad.
#[verifier::external_body]
fn lower_hex_of(bytes: &Vec<u8>) -> (text: String)
    ensures
        text@ == hex_lower(bytes@),
{
    format!("{:64x}", bytes::Bytes::from(bytes.clone()))
}

/// Writes a name out with the `Debug` of `xor_name::XorName`: the first
/// three bytes in hexadecimal digits, the first byte in binary digits within
/// brackets, and two dots.
#[verifier::external_body]
fn debug_of(name: &XorName) -> (text: String)
    ensures
        text@ == name_debug(name@),
{
    format!("{:?}", xor_name::XorName(name.0))
}

/// Writes a number out with `format!`: its decimal digits.
#[verifier::external_body]
fn decimal_of(number: u64) -> (text: String)
    ensures
        text@ == decimal(number as nat),
{
    format!("{number}")
}

/// Writes two strings out with `format!`, one after the other.
#[verifier::external_body]
fn joined(first: &str, second: &str) -> (text: String)
    ensures
        text@ == first@ + second@,
{
    format!("{first}{second}")
}

impl NetworkAddress {
    /// The address as it is shown to people: its kind, and within brackets
    /// the bytes in hexadecimal digits for a peer or a record key, the
    /// address in its short form for the others.
    pub open spec fn display_text(&self) -> Seq<char> {
        match self {
            NetworkAddress::PeerId(id) => "NetworkAddress::PeerId("@ + hex_lower(id@) + ")"@,
            NetworkAddress::ChunkAddress(address) => "NetworkAddress::ChunkAddress(ChunkAddress("@ + name_debug(
                address.0@,
            ) + "))"@,
            NetworkAddress::DbcAddress(address) => "NetworkAddress::DbcAddress(DbcAddress("@ + name_debug(
                address.0@,
            ) + "))"@,
            NetworkAddress::RegisterAddress(address) => "NetworkAddress::RegisterAddress(RegisterAddress { name: "@
                + name_debug(address.name@) + ", tag: "@ + decimal(address.tag as nat) + " })"@,
            NetworkAddress::RecordKey(key) => "NetworkAddress::RecordKey("@ + hex_lower(key@) + ")"@,
        }
    }

    /// The address as it is shown in logs: its kind, the short form of its
    /// XOR-name where it has one, and its record key in hexadecimal digits.
    pub open spec fn debug_text(&self) -> Seq<char> {
        let opening = match self {
            NetworkAddress::PeerId(_) => "NetworkAddress::PeerId("@,
            NetworkAddress::ChunkAddress(address) => "NetworkAddress::ChunkAddress("@ + name_debug(address.0@)
                + " - "@,
            NetworkAddress::DbcAddress(address) => "NetworkAddress::DbcAddress("@ + name_debug(address.0@) + " - "@,
            NetworkAddress::RegisterAddress(_) => "NetworkAddress::RegisterAddress("@ + name_debug(self.bytes())
                + " - "@,
            NetworkAddress::RecordKey(_) => "NetworkAddress::RecordKey("@,
        };
        opening + " - "@ + hex_lower(self.bytes()) + ")"@
    }

    /// The address as it is shown to people.
    pub fn to_string(&self) -> (text: String)
        ensures
            text@ == self.display_text(),
    {
        match self {
            NetworkAddress::PeerId(id) => {
                let opened = joined("NetworkAddress::PeerId(", hex_of(id).as_str());
                joined(opened.as_str(), ")")
            },
            NetworkAddress::ChunkAddress(address) => {
                let opened = joined("NetworkAddress::ChunkAddress(ChunkAddress(", debug_of(&address.0).as_str());
                joined(opened.as_str(), "))")
            },
            NetworkAddress::DbcAddress(address) => {
                let opened = joined("NetworkAddress::DbcAddress(DbcAddress(", debug_of(&address.0).as_str());
                joined(opened.as_str(), "))")
            },
            NetworkAddress::RegisterAddress(address) => {
                let opened = joined(
                    "NetworkAddress::RegisterAddress(RegisterAddress { name: ",
                    debug_of(&address.name).as_str(),
                );
                let named = joined(opened.as_str(), ", tag: ");
                let tagged = joined(named.as_str(), decimal_of(address.tag).as_str());
                joined(tagged.as_str(), " })")
            },
            NetworkAddress::RecordKey(key) => {
                let opened = joined("NetworkAddress::RecordKey(", hex_of(key).as_str());
                joined(opened.as_str(), ")")
            },
        }
    }

    /// The address as it is shown in logs.
    pub fn debug_string(&self) -> (text: String)
        ensures
            text@ == self.debug_text(),
    {
        let opening = match self {
            NetworkAddress::PeerId(_) => "NetworkAddress::PeerId(".to_owned(),
            NetworkAddress::ChunkAddress(address) => {
                let opened = joined("NetworkAddress::ChunkAddress(", debug_of(&address.xorname()).as_str());
                joined(opened.as_str(), " - ")
            },
            NetworkAddress::DbcAddress(address) => {
                let opened = joined("NetworkAddress::DbcAddress(", debug_of(&address.xorname()).as_str());
                joined(opened.as_str(), " - ")
            },
            NetworkAddress::RegisterAddress(address) => {
                let opened = joined("NetworkAddress::RegisterAddress(", debug_of(&address.xorname()).as_str());
                joined(opened.as_str(), " - ")
            },
            NetworkAddress::RecordKey(_) => "NetworkAddress::RecordKey(".to_owned(),
        };
        let key = PrettyPrintRecordKey::from(self.to_record_key());
        let dashed = joined(opening.as_str(), " - ");
        let keyed = joined(dashed.as_str(), key.to_string().as_str());
        joined(keyed.as_str(), ")")
    }
}

/// A record key that is written out in hexadecimal digits, so that record
/// keys and XOR-names read the same in messages to clients.
#[derive(Clone, Debug, PartialEq, Eq)]
pub struct PrettyPrintRecordKey(pub RecordKey);

impl From<RecordKey> for PrettyPrintRecordKey {
    fn from(key: RecordKey) -> (pretty: PrettyPrintRecordKey) {
        PrettyPrintRecordKey(key)
    }
}

impl vstd::std_specs::convert::FromSpecImpl<RecordKey> for PrettyPrintRecordKey {
    open spec fn obeys_from_spec() -> bool {
        true
    }

    open spec fn from_spec(key: RecordKey) -> PrettyPrintRecordKey {
        PrettyPrintRecordKey(key)
    }
}

impl PrettyPrintRecordKey {
    /// The key in lower-case hexadecimal digits.
    pub fn to_string(&self) -> (text: String)
        ensures
            text@ == hex_lower(self.0@),
    {
        lower_hex_of(&self.0.0)
    }
}

} // verus!
