use pxid::{Bytes, DecodeError, Error, Pxid};

const SAMPLE: Bytes = [
    0x61, 0x63, 0x63, 0x74, 0x4d, 0x88, 0xe1, 0x5b, 0x60, 0xf4, 0x86, 0xe4, 0x28, 0x41, 0x2d, 0xc9,
];

#[test]
fn encodes_an_id_as_a_string() {
    assert_eq!(
        Pxid([
            0x61, 0x63, 0x63, 0x74, 0x4d, 0x88, 0xe1, 0x5b, 0x60, 0xf4, 0x86, 0xe4, 0x28, 0x41,
            0x2d, 0xc9
        ])
        .to_string(),
        "acct_9m4e2mr0ui3e8a215n4g"
    );
}

#[test]
fn decodes_a_string_into_an_pxid() {
    assert_eq!(
        Pxid::from_str("acct_9m4e2mr0ui3e8a215n4g").unwrap(),
        Pxid([
            0x61, 0x63, 0x63, 0x74, 0x4d, 0x88, 0xe1, 0x5b, 0x60, 0xf4, 0x86, 0xe4, 0x28, 0x41,
            0x2d, 0xc9
        ])
    );
}

#[test]
fn from_invalid_string_complains() {
    assert_eq!(
        Pxid::from_str("invalid"),
        Err(Error::Decode(DecodeError::InvalidLength(
            "invalid".into(),
            7
        )))
    );
}

#[test]
fn from_string_with_invalid_char() {
    assert_eq!(
        Pxid::from_str("acct_9m4e2mr0ui3e8a215n4x"),
        Err(Error::Decode(DecodeError::InvalidChar(
            "9m4e2mr0ui3e8a215n4x".into(),
            'x'
        )))
    );
}

#[test]
fn retrieves_machine_id_from_xid_instance() {
    let id: Bytes = SAMPLE;
    let xid = Pxid::from(id);

    assert_eq!(xid.machine_id(), [0x60, 0xf4, 0x86]);
}

#[test]
fn retrieves_process_id_from_xid_instance() {
    let id: Bytes = SAMPLE;
    let xid = Pxid::from(id);

    assert_eq!(xid.process_id_bytes(), [0xe4, 0x28]);
}

#[test]
fn retrieves_counter_from_xid_instance() {
    let id: Bytes = SAMPLE;
    let xid = Pxid::from(id);

    assert_eq!(xid.counter_bytes(), [0x41, 0x2d, 0xc9]);
}

#[test]
fn retrives_xid_bytes() {
    let id: Bytes = SAMPLE;
    let xid = Pxid::from(id);

    assert_eq!(
        xid.xid_bytes(),
        [0x4d, 0x88, 0xe1, 0x5b, 0x60, 0xf4, 0x86, 0xe4, 0x28, 0x41, 0x2d, 0xc9]
    );
}

#[test]
fn encodes_a_xid_as_a_string() {
    assert_eq!(
        Pxid::encode_xid(&[
            0x4d, 0x88, 0xe1, 0x5b, 0x60, 0xf4, 0x86, 0xe4, 0x28, 0x41, 0x2d, 0xc9
        ])
        .unwrap(),
        "9m4e2mr0ui3e8a215n4g"
    );
}

#[test]
fn decodes_a_xid_from_a_string() {
    assert_eq!(
        Pxid::decode_xid("9m4e2mr0ui3e8a215n4g").unwrap(),
        [0x4d, 0x88, 0xe1, 0x5b, 0x60, 0xf4, 0x86, 0xe4, 0x28, 0x41, 0x2d, 0xc9],
    );
}

#[test]
fn validates_invalid_prefix() {
    assert_eq!(
        Pxid::from_str("account_9m4e2mr0ui3e8a21"),
        Err(Error::Decode(DecodeError::InvalidPrefixLength(
            String::from("account"),
            7
        ))),
    );
}

#[test]
fn validates_invalid_xid() {
    assert_eq!(
        Pxid::from_str("user_9m4e2mr0ui3e8a21s5n4g"),
        Err(Error::Decode(DecodeError::InvalidLength(
            String::from("user_9m4e2mr0ui3e8a21s5n4g"),
            26
        ))),
    );
}

#[test]
fn reads_timestamp_from_identifier() {
    let xid = Pxid::from(SAMPLE);

    assert_eq!(xid.timestamp(), 0x4d88e15b);
}

#[test]
fn reads_counter_value_from_identifier() {
    let xid = Pxid::from(SAMPLE);

    assert_eq!(xid.counter(), 0x412dc9);
    assert_eq!(xid.process_id(), 0xe428);
}

#[test]
fn reads_prefix_text_from_identifier() {
    let xid = Pxid::from(SAMPLE);

    assert_eq!(xid.prefix().unwrap(), "acct");
    assert_eq!(xid.prefix_bytes(), [0x61, 0x63, 0x63, 0x74]);
}

#[test]
fn rejects_non_utf8_prefix_bytes() {
    let mut id: Bytes = SAMPLE;
    id[0] = 0xff;
    let xid = Pxid::from(id);

    assert_eq!(xid.prefix(), Err(Error::Decode(DecodeError::InvalidUtf8)));
    assert_eq!(xid.format(), Err(Error::Decode(DecodeError::InvalidUtf8)));
}

#[test]
fn rejects_prefix_longer_than_four_bytes() {
    let r = Pxid::from_parts("account", 1, [1, 2, 3], 4, 5);

    assert_eq!(
        r,
        Err(Error::PrefixExceedsMaxLength("account".to_string()))
    );
}

#[test]
fn rejects_empty_prefix() {
    let r = Pxid::from_parts("", 1, [1, 2, 3], 4, 5);

    assert_eq!(
        r,
        Err(Error::Decode(DecodeError::MissingPrefix("".to_string())))
    );
}

#[test]
fn rejects_missing_separator() {
    assert_eq!(
        Pxid::from_str("xx9m4e2mr0ui3e8a215n4g"),
        Err(Error::Decode(DecodeError::MissingPrefix(
            "xx9m4e2mr0ui3e8a215n4g".to_string()
        ))),
    );
}

#[test]
fn rejects_duplicated_separator() {
    assert_eq!(
        Pxid::from_str("a_b_9m4e2mr0ui3e8a215n4g"),
        Err(Error::Decode(DecodeError::MissingPrefix(
            "a_b_9m4e2mr0ui3e8a215n4g".to_string()
        ))),
    );
}

#[test]
fn rejects_short_payload_segment() {
    assert_eq!(
        Pxid::from_str("acct_9m4e2mr0ui3e8a215n4"),
        Err(Error::Decode(DecodeError::InvalidXidLength(
            "9m4e2mr0ui3e8a215n4".to_string(),
            19
        ))),
    );
}

#[test]
fn rejects_short_payload_in_codec() {
    assert_eq!(
        Pxid::decode_xid("9m4e2mr0"),
        Err(Error::Decode(DecodeError::InvalidXidLength(
            "9m4e2mr0".to_string(),
            8
        ))),
    );
}

#[test]
fn round_trips_assembled_identifiers() {
    let cases: [(&str, u32, [u8; 3], u16, u32); 4] = [
        ("a", 0, [0, 0, 0], 0, 0),
        ("ab", u32::MAX, [0xff, 0xff, 0xff], u16::MAX, 0xffffff),
        ("dog", 1_300_816_219, [0x60, 0xf4, 0x86], 0xe428, 0x412dc9),
        ("acct", 42, [9, 8, 7], 6, 5),
    ];
    for (prefix, time, machine, pid, counter) in cases {
        let id = Pxid::from_parts(prefix, time, machine, pid, counter).unwrap();
        let text = id.format().unwrap();
        let back = Pxid::from_str(&text).unwrap();

        assert_eq!(back, id);
        assert_eq!(back.timestamp(), time);
        assert_eq!(back.machine_id(), machine);
        assert_eq!(back.process_id(), pid);
        assert_eq!(back.counter(), counter);
    }
}

#[test]
fn default_identifier_is_all_zero() {
    let id = Pxid::default();

    assert_eq!(id, Pxid([0u8; 16]));
    assert_eq!(id.counter(), 0);
}
