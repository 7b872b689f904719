//! Byte-level vocabulary of the DNS message format.

use vstd::prelude::*;

verus! {

/// Length of the fixed message header.
pub const HEADER_LEN: usize = 12;

/// Offset of the question count in the header.
pub const QDCOUNT_AT: usize = 4;

/// Offset of the answer count in the header.
pub const ANCOUNT_AT: usize = 6;

/// Offset of the authority count in the header.
pub const NSCOUNT_AT: usize = 8;

/// Offset of the additional count in the header.
pub const ARCOUNT_AT: usize = 10;

/// Offset of the header byte that carries QR, Opcode, AA, TC and RD.
pub const FLAGS_AT: usize = 2;

/// The response bit (QR) within the first flags byte.
pub const FLAG_QR: u8 = 0x80;

/// The truncation bit (TC) within the first flags byte.
pub const FLAG_TC: u8 = 0x02;

/// The first flags byte of a truncated reply: QR and TC set, everything else clear.
pub const TRUNCATED_FLAGS: u8 = 0x82;

/// Payload limit of a client that does not speak EDNS0.
pub const LEGACY_PAYLOAD_SIZE: u16 = 512;

/// Record type of the EDNS0 OPT pseudo-record.
pub const TYPE_OPT: u16 = 41;

/// Bytes of a question behind its name: type and class.
pub const QUESTION_FIXED_LEN: usize = 4;

/// Bytes of a resource record between its owner name and its data:
/// type, class, TTL and data length.
pub const RECORD_FIXED_LEN: usize = 10;

/// Offset of the class field behind a record's owner name. In an OPT
/// record it holds the payload size.
pub const RECORD_CLASS_AT: usize = 2;

/// Offset of the data length behind a record's owner name.
pub const RECORD_DATA_LEN_AT: usize = 8;

/// Offset, behind the owner name of an OPT record, of the byte that
/// carries the DNSSEC-OK bit: the third byte of the TTL field.
pub const OPT_FLAGS_AT: usize = 6;

/// The DNSSEC-OK bit (DO) within its byte.
pub const FLAG_DO: u8 = 0x80;

/// The big-endian 16-bit field whose first byte is at `at`.
pub open spec fn be16(msg: Seq<u8>, at: int) -> u16 {
    (msg[at] * 256 + msg[at + 1]) as u16
}

/// The high byte of a 16-bit value.
pub open spec fn high_byte(v: u16) -> u8 {
    (v / 256) as u8
}

/// The low byte of a 16-bit value.
pub open spec fn low_byte(v: u16) -> u8 {
    (v % 256) as u8
}

/// Reads the big-endian 16-bit field at `at`.
pub fn read_be16(msg: &[u8], at: usize) -> (v: u16)
    requires
        at + 2 <= msg@.len(),
    ensures
        v == be16(msg@, at as int),
{
    let hi: u16 = msg[at] as u16;
    let lo: u16 = msg[at + 1] as u16;
    hi * 256 + lo
}

/// Splits a 16-bit value into its big-endian bytes.
pub fn split_be16(v: u16) -> (bytes: (u8, u8))
    ensures
        bytes.0 == high_byte(v),
        bytes.1 == low_byte(v),
{
    ((v / 256) as u8, (v % 256) as u8)
}

/// Writing a value big-endian and reading it back gives the value.
pub proof fn lemma_be16_of_bytes(msg: Seq<u8>, at: int, v: u16)
    requires
        0 <= at,
        at + 2 <= msg.len(),
        msg[at] == high_byte(v),
        msg[at + 1] == low_byte(v),
    ensures
        be16(msg, at) == v,
{
}

/// A fresh copy of `bytes`.
pub fn copy_bytes(bytes: &[u8]) -> (out: Vec<u8>)
    ensures
        out@ == bytes@,
{
    let mut out: Vec<u8> = Vec::new();
    let mut i: usize = 0;
    while i < bytes.len()
        invariant
            i <= bytes@.len(),
            out@ == bytes@.subrange(0, i as int),
        decreases bytes@.len() - i,
    {
        out.push(bytes[i]);
        i = i + 1;
    }
    out
}

/// Whether two byte strings hold the same bytes.
pub fn same_bytes(a: &[u8], b: &[u8]) -> (same: bool)
    ensures
        same == (a@ == b@),
{
    if a.len() != b.len() {
        return false;
    }
    let mut i: usize = 0;
    while i < a.len()
        invariant
            i <= a@.len(),
            a@.len() == b@.len(),
            forall|j: int| 0 <= j < i ==> a@[j] == b@[j],
        decreases a@.len() - i,
    {
        if a[i] != b[i] {
            return false;
        }
        i = i + 1;
    }
    assert(a@ =~= b@);
    true
}

} // verus!
