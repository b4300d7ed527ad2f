use zerobeat::{IpcError, MAX_FRAME_BYTES, encode_frame, frame_length};

#[test]
fn frames_carry_a_big_endian_length() {
    let frame = encode_frame(b"ping").unwrap();
    assert_eq!(frame, [0, 0, 0, 4, b'p', b'i', b'n', b'g']);
    assert_eq!(frame_length([0, 0, 0, 4]).unwrap(), 4);
    assert_eq!(frame_length([0, 1, 0, 0]).unwrap(), 65_536);
}

#[test]
fn oversized_frames_are_refused_both_ways() {
    let big = vec![0_u8; MAX_FRAME_BYTES + 1];
    assert!(matches!(encode_frame(&big), Err(IpcError::FrameTooLarge(size)) if size == MAX_FRAME_BYTES + 1));
    assert!(matches!(frame_length([0, 0x10, 0, 1]), Err(IpcError::FrameTooLarge(1_048_577))));
    assert_eq!(frame_length([0, 0x10, 0, 0]).unwrap(), MAX_FRAME_BYTES);
    assert_eq!(
        IpcError::FrameTooLarge(5).message(),
        "IPC frame is too large: 5 bytes"
    );
}

#[test]
fn a_written_header_reads_back_as_its_length() {
    for length in [0_usize, 1, 255, 256, 70_000, MAX_FRAME_BYTES] {
        let payload = vec![7_u8; length];
        let frame = encode_frame(&payload).unwrap();
        let header = [frame[0], frame[1], frame[2], frame[3]];
        assert_eq!(frame_length(header).unwrap(), length);
        assert_eq!(&frame[4..], payload.as_slice());
    }
}

#[test]
fn malformed_payload_is_rejected() {
    let result = zerobeat::check_message_payload(&[0xc1]);

    assert!(result.is_err());
}

#[test]
fn well_formed_payload_passes_the_check() {
    assert!(zerobeat::check_message_payload(&[0x93, 0x01, 0x02, 0x03]).is_ok());
    assert!(zerobeat::check_message_payload(&[0x92, 0x01]).is_err());
}

#[test]
fn pipe_security_grants_the_user_and_the_system() {
    assert_eq!(
        zerobeat::pipe_security_sddl("S-1-5-21-1"),
        "D:P(A;;GA;;;S-1-5-21-1)(A;;GA;;;SY)"
    );
}
