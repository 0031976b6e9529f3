use gem12_display::fingerprint::{
    build_command, check_written, checksum, ensure_success, image_has_finger, parse_answer,
    parse_usb_id, receive, NumberError, ProtocolError, Reply, UsbIdError, COMMAND_GET_IMAGE,
    COMMAND_HANDSHAKE, COMMAND_SLEEP, SLEEP_INTERRUPT_CHECK,
};

fn answer_packet(payload: &[u8]) -> Vec<u8> {
    let mut packet = vec![0xef, 0x01, 0xff, 0xff, 0xff, 0xff, 0x07];
    packet.extend_from_slice(&((payload.len() + 2) as u16).to_be_bytes());
    packet.extend_from_slice(payload);
    let sum = checksum(&packet);
    packet.extend_from_slice(&sum.to_be_bytes());
    packet
}

#[test]
fn builds_handshake_packet() {
    assert_eq!(
        build_command(COMMAND_HANDSHAKE, &[]).unwrap(),
        [
            0xef, 0x01, 0xff, 0xff, 0xff, 0xff, 0x01, 0x00, 0x03, 0x35, 0x00, 0x39
        ]
    );
}

#[test]
fn parses_answer_packet() {
    let packet = [
        0xef, 0x01, 0xff, 0xff, 0xff, 0xff, 0x07, 0x00, 0x05, 0x00, b'M', b'A', 0x00, 0x9a,
    ];
    assert_eq!(parse_answer(&packet).unwrap(), [0, b'M', b'A']);
}

#[test]
fn parses_usb_identifier() {
    assert_eq!(parse_usb_id("3274:8012").unwrap(), (0x3274, 0x8012));
    assert!(parse_usb_id("invalid").is_err());
}

#[test]
fn builds_command_with_data() {
    assert_eq!(
        build_command(COMMAND_SLEEP, &[SLEEP_INTERRUPT_CHECK]).unwrap(),
        [
            0xef, 0x01, 0xff, 0xff, 0xff, 0xff, 0x01, 0x00, 0x04, 0x33, 0x01, 0x00, 0x39
        ]
    );
}

#[test]
fn refuses_command_that_does_not_fit() {
    let largest = vec![0xffu8; 0xffff - 3];
    let packet = build_command(COMMAND_GET_IMAGE, &largest).unwrap();
    assert_eq!(packet.len(), 9 + 0xffff);
    assert_eq!(&packet[7..9], &[0xff, 0xff]);
    let too_large = vec![0u8; 0xffff - 2];
    assert_eq!(
        build_command(COMMAND_GET_IMAGE, &too_large),
        Err(ProtocolError::CommandTooLarge)
    );
    assert_eq!(
        ProtocolError::CommandTooLarge.message(),
        "fingerprint command is too large"
    );
}

#[test]
fn checksum_wraps_and_leaves_out_the_header() {
    let mut packet = vec![0xabu8; 6];
    assert_eq!(checksum(&packet), 0);
    packet.extend(vec![0xffu8; 300]);
    assert_eq!(checksum(&packet), ((300u32 * 255) % 65536) as u16);
}

#[test]
fn answers_give_back_their_payload() {
    for payload in [vec![0u8], vec![0, 1, 2, 3, 255], vec![7; 1000]] {
        let packet = answer_packet(&payload);
        assert_eq!(parse_answer(&packet), Ok(payload));
    }
}

#[test]
fn every_changed_byte_is_noticed() {
    let packet = answer_packet(&[0, 17, 34, 51]);
    for position in 0..packet.len() {
        let mut changed = packet.clone();
        changed[position] ^= 0x10;
        assert!(parse_answer(&changed).is_err(), "position {position}");
    }
}

#[test]
fn names_what_is_wrong_with_an_answer() {
    let good = answer_packet(&[0, b'M', b'A']);

    assert_eq!(parse_answer(&good[..11]), Err(ProtocolError::InvalidHeader));
    assert_eq!(parse_answer(&[]), Err(ProtocolError::InvalidHeader));
    let mut header = good.clone();
    header[5] = 0xfe;
    assert_eq!(parse_answer(&header), Err(ProtocolError::InvalidHeader));
    assert_eq!(
        ProtocolError::InvalidHeader.message(),
        "invalid fingerprint response header"
    );

    let command = build_command(COMMAND_HANDSHAKE, &[]).unwrap();
    let error = parse_answer(&command).unwrap_err();
    assert_eq!(error, ProtocolError::UnexpectedType(1));
    assert_eq!(error.message(), "unexpected fingerprint response type 0x01");

    let mut length = good.clone();
    length[8] = 6;
    assert_eq!(parse_answer(&length), Err(ProtocolError::InvalidLength));
    let mut longer = good.clone();
    longer.push(0);
    assert_eq!(parse_answer(&longer), Err(ProtocolError::InvalidLength));
    assert_eq!(
        ProtocolError::InvalidLength.message(),
        "invalid fingerprint response length"
    );

    let mut sum = good.clone();
    sum[10] = b'N';
    let error = parse_answer(&sum).unwrap_err();
    assert_eq!(
        error,
        ProtocolError::ChecksumMismatch {
            actual: 0x9b,
            expected: 0x9a
        }
    );
    assert_eq!(
        error.message(),
        "fingerprint response checksum mismatch: 009b != 009a"
    );
}

#[test]
fn reports_short_writes() {
    assert_eq!(check_written(12, 12), Ok(()));
    let error = check_written(7, 12).unwrap_err();
    assert_eq!(
        error,
        ProtocolError::ShortWrite {
            written: 7,
            length: 12
        }
    );
    assert_eq!(
        error.message(),
        "short fingerprint command write: 7/12 bytes"
    );
}

#[test]
fn chunks_make_up_an_answer() {
    let packet = answer_packet(&[0, 1, 2, 3, 4, 5]);
    let mut stream = packet.clone();
    stream.extend_from_slice(&[9, 9, 9]);
    for size in 1..stream.len() + 1 {
        let mut received = Vec::new();
        let mut outcome = None;
        for chunk in stream.chunks(size) {
            match receive(received, chunk) {
                Reply::Partial(bytes) => received = bytes,
                Reply::Complete(result) => {
                    outcome = Some(result);
                    break;
                }
            }
        }
        assert_eq!(outcome, Some(Ok(vec![0, 1, 2, 3, 4, 5])), "chunks of {size}");
    }
}

#[test]
fn waits_for_the_rest_of_an_answer() {
    let packet = answer_packet(&[0, 1]);
    let end = packet.len() - 1;
    assert_eq!(
        receive(Vec::new(), &packet[..end]),
        Reply::Partial(packet[..end].to_vec())
    );
    assert_eq!(receive(Vec::new(), &[]), Reply::Partial(Vec::new()));
    assert_eq!(
        receive(vec![1; 8], &[0, 0]),
        Reply::Partial([vec![1; 8], vec![0, 0]].concat())
    );
    assert_eq!(
        receive(vec![0; 8], &[0]),
        Reply::Complete(Err(ProtocolError::InvalidHeader))
    );
}

#[test]
fn tells_success_from_failure() {
    assert_eq!(ensure_success(0x33, &[0, 5]), Ok(()));
    let failed = ensure_success(0x33, &[0x1a]).unwrap_err();
    assert_eq!(
        failed,
        ProtocolError::CommandFailed {
            command: 0x33,
            result: 0x1a
        }
    );
    assert_eq!(
        failed.message(),
        "fingerprint command 0x33 failed with 0x1a"
    );
    let empty = ensure_success(0x33, &[]).unwrap_err();
    assert_eq!(empty, ProtocolError::EmptyResponse { command: 0x33 });
    assert_eq!(empty.message(), "empty fingerprint command 0x33 response");
}

#[test]
fn reads_presence() {
    assert_eq!(image_has_finger(&[0]), Ok(true));
    assert_eq!(image_has_finger(&[2]), Ok(false));
    assert_eq!(image_has_finger(&[0x77, 0]), Ok(false));
    assert_eq!(image_has_finger(&[]), Err(ProtocolError::EmptyPresence));
    assert_eq!(
        ProtocolError::EmptyPresence.message(),
        "empty fingerprint presence response"
    );
}

#[test]
fn reads_usb_identifiers_like_the_standard_parser() {
    let parts = [
        "", "0", "+", "-", "+0", "-1", "f", "FFFF", "fFfF", "00001", "10000", "+ffff", "+10000",
        "++1", "g", "1 ", " 1", "123g5", "99999", "fffff0g", "é", "0x12", "000000000000ffff",
    ];
    for vid in parts {
        for pid in parts {
            let id = format!("{vid}:{pid}");
            let expected = match (u16::from_str_radix(vid, 16), u16::from_str_radix(pid, 16)) {
                (Ok(vid), Ok(pid)) => Ok((vid, pid)),
                (Err(error), _) => Err(error.to_string()),
                (_, Err(error)) => Err(error.to_string()),
            };
            assert_eq!(
                parse_usb_id(&id).map_err(|error| error.message()),
                expected,
                "{id}"
            );
        }
    }
}

#[test]
fn splits_usb_identifiers_at_the_first_colon() {
    assert_eq!(
        parse_usb_id("1:2:3"),
        Err(UsbIdError::Number(NumberError::InvalidDigit))
    );
    assert_eq!(
        parse_usb_id(":8012"),
        Err(UsbIdError::Number(NumberError::Empty))
    );
    assert_eq!(
        parse_usb_id("10000:1"),
        Err(UsbIdError::Number(NumberError::Overflow))
    );
    assert_eq!(parse_usb_id("32748012"), Err(UsbIdError::Format));
    assert_eq!(
        UsbIdError::Format.message(),
        "expected fingerprint USB ID in vid:pid format"
    );
}

#[test]
fn usb_identifiers_give_back_their_numbers() {
    for (vid, pid) in [(0u16, 0u16), (0x3274, 0x8012), (0xffff, 0x0a0b)] {
        assert_eq!(parse_usb_id(&format!("{vid:04x}:{pid:04x}")), Ok((vid, pid)));
    }
}
