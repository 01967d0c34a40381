use prjfs::guid::{guid_from_bytes, guid_to_bytes, Guid, GuidError};

#[test]
fn guid_bytes_are_big_endian_fields_then_trailing_bytes() {
    let guid = Guid {
        data1: 0x0102_0304,
        data2: 0x0506,
        data3: 0x0708,
        data4: [9, 10, 11, 12, 13, 14, 15, 16],
    };
    assert_eq!(
        guid_to_bytes(&guid),
        vec![1, 2, 3, 4, 5, 6, 7, 8, 9, 10, 11, 12, 13, 14, 15, 16]
    );
}

#[test]
fn guid_round_trips_through_bytes() {
    let guid = Guid {
        data1: 0xDEAD_BEEF,
        data2: 0xFFFF,
        data3: 0,
        data4: [0xFF, 0, 0x80, 1, 2, 3, 4, 0x7F],
    };
    assert_eq!(guid_from_bytes(guid_to_bytes(&guid)), Ok(guid));
}

#[test]
fn guid_from_fifteen_bytes_fails() {
    assert_eq!(guid_from_bytes(vec![0; 15]), Err(GuidError::NotEnoughBytes));
    assert_eq!(guid_from_bytes(Vec::new()), Err(GuidError::NotEnoughBytes));
}

#[test]
fn guid_from_more_than_sixteen_bytes_ignores_the_rest() {
    let mut bytes: Vec<u8> = (1..=16).collect();
    bytes.push(0xAA);
    let guid = guid_from_bytes(bytes).unwrap();
    assert_eq!(guid.data1, 0x0102_0304);
    assert_eq!(guid.data2, 0x0506);
    assert_eq!(guid.data3, 0x0708);
    assert_eq!(guid.data4, [9, 10, 11, 12, 13, 14, 15, 16]);
}

#[test]
fn guid_key_is_the_stored_form_as_a_number() {
    let guid = Guid {
        data1: 0x0102_0304,
        data2: 0x0506,
        data3: 0x0708,
        data4: [9, 10, 11, 12, 13, 14, 15, 16],
    };
    assert_eq!(guid.key(), 0x0102_0304_0506_0708_090A_0B0C_0D0E_0F10u128);
}
