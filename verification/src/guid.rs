//! Sixteen-byte identifiers: the identity of a virtualization root and the
//! key of an enumeration session.

use vstd::prelude::*;

verus! {

/// The number of bytes in the stored form of an identifier.
pub const GUID_LEN: usize = 16;

/// A globally unique identifier, field by field as the host lays it out.
#[derive(Clone, Copy, Debug, PartialEq, Eq)]
pub struct Guid {
    pub data1: u32,
    pub data2: u16,
    pub data3: u16,
    pub data4: [u8; 8],
}

/// Why bytes could not be read as an identifier.
#[derive(Clone, Copy, Debug, PartialEq, Eq)]
pub enum GuidError {
    /// Fewer than sixteen bytes were given.
    NotEnoughBytes,
}

/// The four bytes of `x`, most significant first.
pub open spec fn be_bytes_u32(x: u32) -> Seq<u8> {
    seq![
        (x / 0x100_0000) as u8,
        (x / 0x1_0000 % 0x100) as u8,
        (x / 0x100 % 0x100) as u8,
        (x % 0x100) as u8,
    ]
}

/// The two bytes of `x`, most significant first.
pub open spec fn be_bytes_u16(x: u16) -> Seq<u8> {
    seq![(x / 0x100) as u8, (x % 0x100) as u8]
}

/// The value whose big-endian bytes are `b0 b1 b2 b3`.
pub open spec fn be_value_u32(b0: u8, b1: u8, b2: u8, b3: u8) -> u32 {
    (b0 * 0x100_0000 + b1 * 0x1_0000 + b2 * 0x100 + b3) as u32
}

/// The value whose big-endian bytes are `b0 b1`.
pub open spec fn be_value_u16(b0: u8, b1: u8) -> u16 {
    (b0 * 0x100 + b1) as u16
}

/// The stored form of an identifier: its three integer fields, each most
/// significant byte first, then the eight trailing bytes as they are.
pub open spec fn guid_bytes(guid: Guid) -> Seq<u8> {
    be_bytes_u32(guid.data1) + be_bytes_u16(guid.data2) + be_bytes_u16(guid.data3) + guid.data4@
}

/// Whether `guid` is what the first sixteen of `bytes` store.
pub open spec fn guid_stored_in(guid: Guid, bytes: Seq<u8>) -> bool {
    &&& bytes.len() >= GUID_LEN
    &&& guid.data1 == be_value_u32(bytes[0], bytes[1], bytes[2], bytes[3])
    &&& guid.data2 == be_value_u16(bytes[4], bytes[5])
    &&& guid.data3 == be_value_u16(bytes[6], bytes[7])
    &&& guid.data4@ == bytes.subrange(8, 16)
}

/// The identifier that the first sixteen of `bytes` store.
pub open spec fn stored_guid(bytes: Seq<u8>) -> Guid {
    choose|guid: Guid| guid_stored_in(guid, bytes)
}

/// What reading an identifier from `bytes` gives.
pub open spec fn spec_guid_from_bytes(bytes: Seq<u8>) -> Result<Guid, GuidError> {
    if bytes.len() < GUID_LEN {
        Err(GuidError::NotEnoughBytes)
    } else {
        Ok(stored_guid(bytes))
    }
}

/// Only one identifier is stored in given bytes.
pub proof fn lemma_stored_guid_unique(a: Guid, b: Guid, bytes: Seq<u8>)
    requires
        guid_stored_in(a, bytes),
        guid_stored_in(b, bytes),
    ensures
        a == b,
{
    assert(a.data4@ =~= b.data4@);
    assert(a.data4 == b.data4);
}

/// Reads an identifier from the first sixteen of `bytes`; later bytes are
/// ignored. Fails exactly when fewer than sixteen are given.
pub fn guid_from_bytes(bytes: Vec<u8>) -> (r: Result<Guid, GuidError>)
    ensures
        r == spec_guid_from_bytes(bytes@),
        bytes@.len() < GUID_LEN <==> r == Err::<Guid, GuidError>(GuidError::NotEnoughBytes),
        bytes@.len() >= GUID_LEN <==> r is Ok,
        r is Ok ==> guid_stored_in(r->Ok_0, bytes@),
{
    if bytes.len() < GUID_LEN {
        return Err(GuidError::NotEnoughBytes);
    }
    let data1: u32 = (bytes[0] as u32) * 0x100_0000 + (bytes[1] as u32) * 0x1_0000 + (
    bytes[2] as u32) * 0x100 + (bytes[3] as u32);
    let data2: u16 = (bytes[4] as u16) * 0x100 + (bytes[5] as u16);
    let data3: u16 = (bytes[6] as u16) * 0x100 + (bytes[7] as u16);
    let data4: [u8; 8] = [
        bytes[8],
        bytes[9],
        bytes[10],
        bytes[11],
        bytes[12],
        bytes[13],
        bytes[14],
        bytes[15],
    ];
    assert(data4@ =~= bytes@.subrange(8, 16));
    let guid = Guid { data1, data2, data3, data4 };
    proof {
        assert(guid_stored_in(guid, bytes@));
        lemma_stored_guid_unique(guid, stored_guid(bytes@), bytes@);
    }
    Ok(guid)
}

/// Writes an identifier in its stored form: always sixteen bytes.
pub fn guid_to_bytes(guid: &Guid) -> (bytes: Vec<u8>)
    ensures
        bytes@ == guid_bytes(*guid),
        bytes@.len() == GUID_LEN,
{
    let mut bytes: Vec<u8> = Vec::with_capacity(GUID_LEN);
    bytes.push((guid.data1 / 0x100_0000) as u8);
    bytes.push((guid.data1 / 0x1_0000 % 0x100) as u8);
    bytes.push((guid.data1 / 0x100 % 0x100) as u8);
    bytes.push((guid.data1 % 0x100) as u8);
    bytes.push((guid.data2 / 0x100) as u8);
    bytes.push((guid.data2 % 0x100) as u8);
    bytes.push((guid.data3 / 0x100) as u8);
    bytes.push((guid.data3 % 0x100) as u8);
    let mut i: usize = 0;
    while i < 8
        invariant
            i <= 8,
            bytes@ == be_bytes_u32(guid.data1) + be_bytes_u16(guid.data2) + be_bytes_u16(
                guid.data3,
            ) + guid.data4@.take(i as int),
        decreases 8 - i,
    {
        bytes.push(guid.data4[i]);
        i = i + 1;
    }
    assert(guid.data4@.take(8) =~= guid.data4@);
    bytes
}

/// Writing an identifier and reading it back gives the same identifier.
pub proof fn lemma_guid_round_trip(guid: Guid)
    ensures
        guid_bytes(guid).len() == GUID_LEN,
        guid_stored_in(guid, guid_bytes(guid)),
        forall|other: Guid| guid_stored_in(other, guid_bytes(guid)) ==> other == guid,
        spec_guid_from_bytes(guid_bytes(guid)) == Ok::<Guid, GuidError>(guid),
{
    let bytes = guid_bytes(guid);
    assert(bytes.subrange(8, 16) =~= guid.data4@);
    assert forall|other: Guid| guid_stored_in(other, bytes) implies other == guid by {
        lemma_stored_guid_unique(other, guid, bytes);
    }
    assert(guid_stored_in(guid, bytes));
    assert(guid_stored_in(stored_guid(bytes), bytes));
}

/// The big-endian bytes of a value built from four bytes are those bytes.
proof fn lemma_be_u32(b0: u8, b1: u8, b2: u8, b3: u8)
    ensures
        be_bytes_u32(be_value_u32(b0, b1, b2, b3)) == seq![b0, b1, b2, b3],
{
    let x: int = b0 * 0x100_0000 + b1 * 0x1_0000 + b2 * 0x100 + b3;
    assert(be_value_u32(b0, b1, b2, b3) == x);
    assert(x / 0x100_0000 == b0);
    assert(x / 0x1_0000 == b0 * 0x100 + b1);
    assert(x / 0x100 == b0 * 0x1_0000 + b1 * 0x100 + b2);
    assert(be_bytes_u32(be_value_u32(b0, b1, b2, b3)) =~= seq![b0, b1, b2, b3]);
}

/// The big-endian bytes of a value built from two bytes are those bytes.
proof fn lemma_be_u16(b0: u8, b1: u8)
    ensures
        be_bytes_u16(be_value_u16(b0, b1)) == seq![b0, b1],
{
    let x: int = b0 * 0x100 + b1;
    assert(be_value_u16(b0, b1) == x);
    assert(be_bytes_u16(be_value_u16(b0, b1)) =~= seq![b0, b1]);
}

/// Reading sixteen bytes and writing the identifier back gives the same bytes.
pub proof fn lemma_bytes_round_trip(guid: Guid, bytes: Seq<u8>)
    requires
        bytes.len() == GUID_LEN,
        guid_stored_in(guid, bytes),
    ensures
        guid_bytes(guid) == bytes,
{
    lemma_be_u32(bytes[0], bytes[1], bytes[2], bytes[3]);
    lemma_be_u16(bytes[4], bytes[5]);
    lemma_be_u16(bytes[6], bytes[7]);
    assert(guid_bytes(guid) =~= bytes);
}

/// The eight trailing bytes read as one number, first byte most significant.
pub open spec fn trailing_value(data4: [u8; 8]) -> int {
    data4[0] * 0x100_0000_0000_0000 + data4[1] * 0x1_0000_0000_0000 + data4[2] * 0x100_0000_0000
        + data4[3] * 0x1_0000_0000 + data4[4] * 0x100_0000 + data4[5] * 0x1_0000 + data4[6] * 0x100
        + data4[7]
}

impl Guid {
    /// The identifier as one 128-bit number: its stored form read most
    /// significant byte first.
    pub open spec fn spec_key(&self) -> u128 {
        (self.data1 * 0x1_0000_0000_0000_0000_0000_0000 + self.data2 * 0x1_0000_0000_0000_0000_0000
            + self.data3 * 0x1_0000_0000_0000_0000 + trailing_value(self.data4)) as u128
    }

    /// The identifier as one 128-bit number.
    #[verifier::when_used_as_spec(spec_key)]
    pub fn key(&self) -> (k: u128)
        ensures
            k == self.spec_key(),
    {
        let mut low: u128 = 0;
        let mut i: usize = 0;
        let ghost d = self.data4;
        assert(trailing_value(d) < 0x1_0000_0000_0000_0000);
        while i < 8
            invariant
                i <= 8,
                d == self.data4,
                i == 0 ==> low == 0,
                i == 1 ==> low == d[0],
                i == 2 ==> low == d[0] * 0x100 + d[1],
                i == 3 ==> low == d[0] * 0x1_0000 + d[1] * 0x100 + d[2],
                i == 4 ==> low == d[0] * 0x100_0000 + d[1] * 0x1_0000 + d[2] * 0x100 + d[3],
                i == 5 ==> low == d[0] * 0x1_0000_0000 + d[1] * 0x100_0000 + d[2] * 0x1_0000 + d[3]
                    * 0x100 + d[4],
                i == 6 ==> low == d[0] * 0x100_0000_0000 + d[1] * 0x1_0000_0000 + d[2] * 0x100_0000
                    + d[3] * 0x1_0000 + d[4] * 0x100 + d[5],
                i == 7 ==> low == d[0] * 0x1_0000_0000_0000 + d[1] * 0x100_0000_0000 + d[2]
                    * 0x1_0000_0000 + d[3] * 0x100_0000 + d[4] * 0x1_0000 + d[5] * 0x100 + d[6],
                i == 8 ==> low == trailing_value(d),
            decreases 8 - i,
        {
            low = low * 0x100 + self.data4[i] as u128;
            i = i + 1;
        }
        (self.data1 as u128) * 0x1_0000_0000_0000_0000_0000_0000 + (self.data2 as u128)
            * 0x1_0000_0000_0000_0000_0000 + (self.data3 as u128) * 0x1_0000_0000_0000_0000 + low
    }
}

/// A number below `m` appended to a multiple of `m` determines both parts.
proof fn lemma_digits_injective(h1: int, l1: int, h2: int, l2: int, m: int)
    requires
        0 <= l1 < m,
        0 <= l2 < m,
        h1 * m + l1 == h2 * m + l2,
    ensures
        h1 == h2,
        l1 == l2,
{
    assert((h1 - h2) * m == l2 - l1) by (nonlinear_arith)
        requires
            h1 * m + l1 == h2 * m + l2,
    ;
    assert(h1 == h2) by (nonlinear_arith)
        requires
            (h1 - h2) * m == l2 - l1,
            -m < l2 - l1 < m,
    ;
}

/// Two trailing byte groups with the same value are the same bytes.
proof fn lemma_trailing_injective(a: [u8; 8], b: [u8; 8])
    requires
        trailing_value(a) == trailing_value(b),
    ensures
        a == b,
{
    let a1: int = a[0] * 0x100 + a[1];
    let b1: int = b[0] * 0x100 + b[1];
    let a2: int = a1 * 0x100 + a[2];
    let b2: int = b1 * 0x100 + b[2];
    let a3: int = a2 * 0x100 + a[3];
    let b3: int = b2 * 0x100 + b[3];
    let a4: int = a3 * 0x100 + a[4];
    let b4: int = b3 * 0x100 + b[4];
    let a5: int = a4 * 0x100 + a[5];
    let b5: int = b4 * 0x100 + b[5];
    let a6: int = a5 * 0x100 + a[6];
    let b6: int = b5 * 0x100 + b[6];
    assert(trailing_value(a) == a6 * 0x100 + a[7]);
    assert(trailing_value(b) == b6 * 0x100 + b[7]);
    lemma_digits_injective(a6, a[7] as int, b6, b[7] as int, 0x100);
    lemma_digits_injective(a5, a[6] as int, b5, b[6] as int, 0x100);
    lemma_digits_injective(a4, a[5] as int, b4, b[5] as int, 0x100);
    lemma_digits_injective(a3, a[4] as int, b3, b[4] as int, 0x100);
    lemma_digits_injective(a2, a[3] as int, b2, b[3] as int, 0x100);
    lemma_digits_injective(a1, a[2] as int, b1, b[2] as int, 0x100);
    lemma_digits_injective(a[0] as int, a[1] as int, b[0] as int, b[1] as int, 0x100);
    assert(a@ =~= b@);
}

/// Distinct identifiers have distinct keys.
pub proof fn lemma_key_injective(a: Guid, b: Guid)
    requires
        a.spec_key() == b.spec_key(),
    ensures
        a == b,
{
    let la = trailing_value(a.data4);
    let lb = trailing_value(b.data4);
    assert(0 <= la < 0x1_0000_0000_0000_0000);
    assert(0 <= lb < 0x1_0000_0000_0000_0000);
    let a1: int = a.data1 * 0x1_0000 + a.data2;
    let b1: int = b.data1 * 0x1_0000 + b.data2;
    let a2: int = a1 * 0x1_0000 + a.data3;
    let b2: int = b1 * 0x1_0000 + b.data3;
    assert(a.spec_key() == a2 * 0x1_0000_0000_0000_0000 + la);
    assert(b.spec_key() == b2 * 0x1_0000_0000_0000_0000 + lb);
    lemma_digits_injective(a2, la, b2, lb, 0x1_0000_0000_0000_0000);
    lemma_digits_injective(a1, a.data3 as int, b1, b.data3 as int, 0x1_0000);
    lemma_digits_injective(a.data1 as int, a.data2 as int, b.data1 as int, b.data2 as int, 0x1_0000);
    lemma_trailing_injective(a.data4, b.data4);
}

} // verus!
