use pxid::{DecodeError, Error, Factory};

#[test]
fn factory_stamps_cached_ids_and_counter_seed() {
    let factory = Factory::with_counter_seed([1, 2, 3], 0xabcd, 5);
    let id = factory.new_with_time("acct", 1000).unwrap();

    assert_eq!(id.prefix().unwrap(), "acct");
    assert_eq!(id.timestamp(), 1000);
    assert_eq!(id.machine_id(), [1, 2, 3]);
    assert_eq!(id.process_id(), 0xabcd);
    assert_eq!(id.counter(), 5);
}

#[test]
fn factory_counter_advances_by_one_per_identifier() {
    let factory = Factory::with_counter_seed([0, 0, 0], 1, 100);
    let seed: u32 = 100;
    for i in 0..70_000u32 {
        let id = factory.new_with_time("t", 7).unwrap();
        assert_eq!(id.counter(), (seed + i) % 0x1000000);
    }
}

#[test]
fn factory_counter_uses_low_bits_of_seed() {
    let factory = Factory::with_counter_seed([0, 0, 0], 1, 0x12345678);
    let id = factory.new_with_time("t", 7).unwrap();

    assert_eq!(id.counter(), 0x345678);
}

#[test]
fn factory_counter_wraps_after_last_value() {
    let factory = Factory::with_counter_seed([4, 5, 6], 2, 0xfffffe);
    let a = factory.new_with_time("w", 9).unwrap();
    let b = factory.new_with_time("w", 9).unwrap();
    let c = factory.new_with_time("w", 9).unwrap();

    assert_eq!(a.counter(), 0xfffffe);
    assert_eq!(b.counter(), 0xffffff);
    assert_eq!(c.counter(), 0x000000);
    assert_ne!(a, b);
    assert_ne!(b, c);
    assert_ne!(a, c);
}

#[test]
fn factory_rejects_bad_prefixes() {
    let factory = Factory::new([1, 2, 3], 77);

    assert_eq!(
        factory.new_with_time("account", 1),
        Err(Error::PrefixExceedsMaxLength("account".to_string()))
    );
    assert_eq!(
        factory.new_with_time("", 1),
        Err(Error::Decode(DecodeError::MissingPrefix("".to_string())))
    );
}

#[test]
fn factory_generates_with_current_time() {
    let factory = Factory::new([1, 2, 3], 77);
    let id = factory.new_id("user").unwrap();
    let text = id.format().unwrap();

    assert!(text.starts_with("user_"));
    assert_eq!(text.len(), 25);
    assert_eq!(pxid::Pxid::from_str(&text).unwrap(), id);
}

#[test]
fn derives_machine_id_from_host_identifier() {
    // The digest of "hello" begins 5d 41 40 2a.
    assert_eq!(pxid::machine_id_from_host("hello"), [0x5d, 0x41, 0x40]);
}
