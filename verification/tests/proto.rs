use lan_mouse::proto::{
    capabilities_indicate_linux_or_windows, local_capabilities, max_clipboard_payload_size,
    ClipboardData, EventType, InputEvent, KeyboardEvent, Platform, PointerEvent, Position,
    ProtoEvent, ProtocolError, CAP_CLIPBOARD, CAP_PLATFORM_LINUX, CAP_PLATFORM_MACOS,
    CAP_PLATFORM_WINDOWS, CAP_SYNC_LOCK, CLIPBOARD_MIME_TEXT, MAX_EVENT_SIZE,
};

fn local_caps() -> u32 {
    local_capabilities(Platform::Linux, true, true)
}

#[test]
fn capability_events_decode_from_legacy_short_messages() {
    let enter = [EventType::Enter.to_u8(), Position::Right.to_u8()];
    assert!(matches!(
        ProtoEvent::decode(&enter[..]).expect("enter"),
        ProtoEvent::Enter {
            pos: Position::Right,
            capabilities: 0,
        }
    ));

    let mut ack = vec![EventType::Ack.to_u8()];
    ack.extend(7u32.to_be_bytes());
    assert!(matches!(
        ProtoEvent::decode(&ack[..]).expect("ack"),
        ProtoEvent::Ack {
            serial: 7,
            capabilities: 0,
        }
    ));

    let pong = [EventType::Pong.to_u8(), 1];
    assert!(matches!(
        ProtoEvent::decode(&pong[..]).expect("pong"),
        ProtoEvent::Pong {
            alive: true,
            capabilities: 0,
        }
    ));
}

#[test]
fn partial_capability_events_return_error() {
    let enter = EventType::Enter.to_u8();
    let ack = EventType::Ack.to_u8();
    let pong = EventType::Pong.to_u8();
    let right = Position::Right.to_u8();
    for event in [
        vec![enter, right, 0],
        vec![enter, right, 0, 0],
        vec![enter, right, 0, 0, 0],
        vec![ack, 0, 0, 0, 7, 0],
        vec![ack, 0, 0, 0, 7, 0, 0],
        vec![ack, 0, 0, 0, 7, 0, 0, 0],
        vec![pong, 1, 0],
        vec![pong, 1, 0, 0],
        vec![pong, 1, 0, 0, 0],
    ] {
        assert!(matches!(
            ProtoEvent::decode(event.as_slice()),
            Err(ProtocolError::UnexpectedEof)
        ));
    }
}

#[test]
fn capability_events_round_trip() {
    for event in [
        ProtoEvent::Enter {
            pos: Position::Left,
            capabilities: local_caps(),
        },
        ProtoEvent::Ack {
            serial: 3,
            capabilities: local_caps(),
        },
        ProtoEvent::Pong {
            alive: true,
            capabilities: local_caps(),
        },
    ] {
        let expected = event.capabilities();
        let (buf, len) = event.into_datagram();
        let decoded = ProtoEvent::decode(&buf[..len]).expect("decode event");
        assert_eq!(decoded.capabilities(), expected);
    }
}

#[test]
fn local_capabilities_follow_clipboard_toggle() {
    assert_eq!(local_capabilities(Platform::Linux, false, false) & CAP_CLIPBOARD, 0);
    assert_eq!(
        local_capabilities(Platform::Linux, true, false) & CAP_CLIPBOARD,
        CAP_CLIPBOARD
    );
}

#[test]
fn local_capabilities_follow_sync_lock_toggle() {
    assert_eq!(local_capabilities(Platform::Linux, false, false) & CAP_SYNC_LOCK, 0);
    assert_eq!(
        local_capabilities(Platform::Linux, false, true) & CAP_SYNC_LOCK,
        CAP_SYNC_LOCK
    );
}

#[test]
fn local_capabilities_include_platform() {
    let local = Platform::Linux.capability();
    assert_eq!(local_capabilities(Platform::Linux, false, false) & local, local);
    for platform in [Platform::Linux, Platform::MacOs, Platform::Windows, Platform::Other] {
        assert_eq!(
            local_capabilities(platform, false, false) & platform.capability(),
            platform.capability()
        );
    }
}

#[test]
fn lock_event_round_trips() {
    let (buf, len) = ProtoEvent::Lock.into_datagram();
    assert!(matches!(
        ProtoEvent::decode(&buf[..len]).expect("decode lock"),
        ProtoEvent::Lock
    ));
}

#[test]
fn clipboard_event_round_trips_with_actual_datagram_len() {
    let event = ProtoEvent::Clipboard(ClipboardData {
        transfer_id: 42,
        chunk_index: 1,
        chunk_count: 2,
        mime: CLIPBOARD_MIME_TEXT.to_owned(),
        payload: b"hello clipboard".to_vec(),
    });

    let (buf, len) = event.into_datagram();
    assert!(len <= MAX_EVENT_SIZE);
    let decoded = ProtoEvent::decode(&buf[..len]).expect("decode event");
    let ProtoEvent::Clipboard(decoded) = decoded else {
        panic!("expected clipboard event");
    };
    assert_eq!(
        decoded,
        ClipboardData {
            transfer_id: 42,
            chunk_index: 1,
            chunk_count: 2,
            mime: CLIPBOARD_MIME_TEXT.to_owned(),
            payload: b"hello clipboard".to_vec(),
        }
    );
}

#[test]
fn invalid_clipboard_events_return_protocol_error() {
    let clipboard = EventType::Clipboard.to_u8();
    let mut zero_chunks = vec![clipboard];
    zero_chunks.extend(42u32.to_be_bytes());
    zero_chunks.extend(0u16.to_be_bytes());
    zero_chunks.extend(0u16.to_be_bytes());
    zero_chunks.extend(0u16.to_be_bytes());
    zero_chunks.extend(0u16.to_be_bytes());

    let mut invalid_index = vec![clipboard];
    invalid_index.extend(42u32.to_be_bytes());
    invalid_index.extend(2u16.to_be_bytes());
    invalid_index.extend(2u16.to_be_bytes());
    invalid_index.extend(0u16.to_be_bytes());
    invalid_index.extend(0u16.to_be_bytes());

    let mut invalid_mime = vec![clipboard];
    invalid_mime.extend(42u32.to_be_bytes());
    invalid_mime.extend(0u16.to_be_bytes());
    invalid_mime.extend(1u16.to_be_bytes());
    invalid_mime.extend(1u16.to_be_bytes());
    invalid_mime.extend(0u16.to_be_bytes());
    invalid_mime.push(0xff);

    for event in [zero_chunks, invalid_index, invalid_mime] {
        assert!(matches!(
            ProtoEvent::decode(event.as_slice()),
            Err(ProtocolError::InvalidClipboard)
        ));
    }
}

#[test]
fn truncated_events_return_error() {
    for event in [
        vec![],
        vec![EventType::Enter.to_u8()],
        vec![EventType::Ack.to_u8(), 0, 0],
        vec![EventType::Pong.to_u8()],
        vec![EventType::Clipboard.to_u8(), 0, 0, 0],
    ] {
        assert!(matches!(
            ProtoEvent::decode(event.as_slice()),
            Err(ProtocolError::UnexpectedEof)
        ));
    }
}

#[test]
fn unknown_event_type_and_position_are_reported() {
    assert_eq!(
        ProtoEvent::decode(&[13u8][..]).unwrap_err(),
        ProtocolError::InvalidEventId(13)
    );
    assert_eq!(
        ProtoEvent::decode(&[EventType::Enter.to_u8(), 4][..]).unwrap_err(),
        ProtocolError::InvalidPosition(4)
    );
}

#[test]
fn wire_numbers_follow_declaration_order() {
    assert_eq!(EventType::PointerMotion.to_u8(), 0);
    assert_eq!(EventType::Enter.to_u8(), 8);
    assert_eq!(EventType::Clipboard.to_u8(), 11);
    assert_eq!(EventType::Lock.to_u8(), 12);
    assert_eq!(EventType::try_from_u8(9), Some(EventType::Leave));
    assert_eq!(EventType::try_from_u8(13), None);
    assert_eq!(Position::Bottom.to_u8(), 3);
    assert_eq!(Position::try_from_u8(2), Some(Position::Top));
    assert_eq!(Position::Left.name(), "left");
    assert_eq!(Position::Bottom.name(), "bottom");
}

#[test]
fn input_events_round_trip_exactly() {
    let events = [
        InputEvent::Pointer(PointerEvent::Motion {
            time: 7,
            dx: 1.5f64.to_bits(),
            dy: (-2.25f64).to_bits(),
        }),
        InputEvent::Pointer(PointerEvent::Button {
            time: 1,
            button: 272,
            state: 1,
        }),
        InputEvent::Pointer(PointerEvent::Axis {
            time: 3,
            axis: 1,
            value: 10.0f64.to_bits(),
        }),
        InputEvent::Pointer(PointerEvent::AxisDiscrete120 {
            axis: 0,
            value: -120,
        }),
        InputEvent::Keyboard(KeyboardEvent::Key {
            time: 9,
            key: 30,
            state: 1,
        }),
        InputEvent::Keyboard(KeyboardEvent::Modifiers {
            depressed: 1,
            latched: 2,
            locked: 3,
            group: 4,
        }),
    ];
    for input in events {
        let (buf, len) = ProtoEvent::Input(input).into_datagram();
        let ProtoEvent::Input(decoded) = ProtoEvent::decode(&buf[..len]).expect("decode") else {
            panic!("expected input event");
        };
        assert_eq!(decoded, input);
        let ProtoEvent::Input(whole) = ProtoEvent::decode_datagram(buf).expect("decode") else {
            panic!("expected input event");
        };
        assert_eq!(whole, input);
    }
}

#[test]
fn motion_event_encoding_is_big_endian() {
    let bytes = ProtoEvent::Input(InputEvent::Pointer(PointerEvent::Motion {
        time: 0x01020304,
        dx: 1.0f64.to_bits(),
        dy: 0,
    }))
    .encode_to_vec();
    assert_eq!(bytes.len(), 21);
    assert_eq!(&bytes[..5], &[0, 1, 2, 3, 4]);
    assert_eq!(&bytes[5..13], &1.0f64.to_be_bytes());
}

#[test]
fn clipboard_encoding_layout() {
    let bytes = ProtoEvent::Clipboard(ClipboardData {
        transfer_id: 0x0a0b0c0d,
        chunk_index: 1,
        chunk_count: 3,
        mime: "ab".to_owned(),
        payload: vec![9, 8, 7],
    })
    .encode_to_vec();
    assert_eq!(
        bytes,
        vec![11, 0x0a, 0x0b, 0x0c, 0x0d, 0, 1, 0, 3, 0, 2, 0, 3, b'a', b'b', 9, 8, 7]
    );
}

#[test]
fn trailing_bytes_after_an_event_are_ignored() {
    let (buf, _) = ProtoEvent::Leave(77).into_datagram();
    assert!(matches!(
        ProtoEvent::decode(&buf[..]).expect("decode"),
        ProtoEvent::Leave(77)
    ));
}

#[test]
fn max_payload_size_depends_on_mime_length() {
    assert_eq!(max_clipboard_payload_size(""), 1187);
    assert_eq!(
        max_clipboard_payload_size(CLIPBOARD_MIME_TEXT),
        1187 - CLIPBOARD_MIME_TEXT.len()
    );
    assert_eq!(max_clipboard_payload_size(&"x".repeat(1187)), 0);
    assert_eq!(max_clipboard_payload_size(&"x".repeat(5000)), 0);
}

#[test]
fn platform_capability_checks() {
    assert!(capabilities_indicate_linux_or_windows(CAP_PLATFORM_LINUX));
    assert!(capabilities_indicate_linux_or_windows(CAP_PLATFORM_WINDOWS | CAP_CLIPBOARD));
    assert!(!capabilities_indicate_linux_or_windows(CAP_PLATFORM_MACOS));
    assert!(!capabilities_indicate_linux_or_windows(0));
    assert_eq!(
        local_capabilities(Platform::MacOs, true, true),
        CAP_PLATFORM_MACOS | CAP_CLIPBOARD | CAP_SYNC_LOCK
    );
    assert_eq!(local_capabilities(Platform::Other, false, true), CAP_SYNC_LOCK);
}
