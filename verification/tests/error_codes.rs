use rdows::error::ErrorCode;

#[test]
fn round_trip_all_error_codes() {
    let codes = [
        (0x0000u16, ErrorCode::Success),
        (0x0001, ErrorCode::ErrProtoVersion),
        (0x0002, ErrorCode::ErrUnknownOpcode),
        (0x0003, ErrorCode::ErrInvalidPd),
        (0x0004, ErrorCode::ErrInvalidLkey),
        (0x0005, ErrorCode::ErrInvalidMkey),
        (0x0006, ErrorCode::ErrAccessDenied),
        (0x0007, ErrorCode::ErrBounds),
        (0x0008, ErrorCode::ErrAlignment),
        (0x0009, ErrorCode::ErrPayloadSize),
        (0x0010, ErrorCode::ErrRnr),
        (0x0020, ErrorCode::ErrCqOverflow),
        (0x0030, ErrorCode::ErrSeqGap),
        (0x0040, ErrorCode::ErrTimeout),
        (0xFFFF, ErrorCode::ErrInternal),
    ];

    for (val, expected) in codes {
        let code = ErrorCode::try_from(val).unwrap();
        assert_eq!(code, expected);
        assert_eq!(u16::from(code), val);
    }
}

#[test]
fn unknown_error_code() {
    assert!(ErrorCode::try_from(0x00FF).is_err());
    assert!(ErrorCode::try_from(0x000A).is_err());
}
