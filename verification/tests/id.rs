use quic_stream::id::{Id, IdOutOfBoundsErr, Initiator, Kind, MAX_ID};

fn id(raw: u64) -> Id {
    Id::try_from(raw).unwrap()
}

/// The four kinds of stream, by the two low bits of the identifier.
#[test]
fn test_client_initiated() {
    let cases = [
        (0x00, Initiator::Client, Kind::Bidirectional),
        (0x01, Initiator::Server, Kind::Bidirectional),
        (0x02, Initiator::Client, Kind::Unidirectional),
        (0x03, Initiator::Server, Kind::Unidirectional),
    ];
    for (raw, expected_initiator, expected_kind) in cases {
        let id = id(raw);
        let kind = id.kind();
        let initiator = id.initiator();
        assert_eq!(kind, expected_kind);
        assert_eq!(initiator, expected_initiator);
    }
}

#[test]
fn id_keeps_its_value() {
    for raw in [0u64, 1, 2, 3, 4, 77, 1 << 40, MAX_ID] {
        assert_eq!(id(raw).as_u64(), raw);
    }
}

#[test]
fn id_bound_is_exclusive_at_two_to_the_62() {
    assert_eq!(MAX_ID, (1u64 << 62) - 1);
    assert!(Id::try_from(MAX_ID).is_ok());
    assert_eq!(Id::try_from(1u64 << 62), Err(IdOutOfBoundsErr));
    assert_eq!(Id::try_from((1u64 << 62) + 1), Err(IdOutOfBoundsErr));
    assert_eq!(Id::try_from(u64::MAX), Err(IdOutOfBoundsErr));
}

#[test]
fn id_accessors_follow_bits_zero_and_one() {
    let samples = [0u64, 1, 2, 3, 4, 5, 6, 7, 8, 1023, 1024, 0xdead_beef, MAX_ID - 3, MAX_ID];
    for raw in samples {
        let id = id(raw);
        let initiator = if raw & 1 == 1 { Initiator::Server } else { Initiator::Client };
        let kind = if (raw >> 1) & 1 == 1 { Kind::Unidirectional } else { Kind::Bidirectional };
        assert_eq!(id.initiator(), initiator);
        assert_eq!(id.kind(), kind);
    }
}

#[test]
fn id_high_bits_do_not_matter() {
    assert_eq!(id(MAX_ID).initiator(), Initiator::Server);
    assert_eq!(id(MAX_ID).kind(), Kind::Unidirectional);
    assert_eq!(id(MAX_ID - 3).initiator(), Initiator::Client);
    assert_eq!(id(MAX_ID - 3).kind(), Kind::Bidirectional);
}

#[test]
fn id_error_message() {
    assert_eq!(IdOutOfBoundsErr.message(), "Id is out of bounds");
}
