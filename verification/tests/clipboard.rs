use lan_mouse::clipboard::{
    encode_clipboard_events, validate_chunk_shape, ClipboardError, ClipboardTransferReceiver,
    SharedClipboardData, TransferIds, MAX_CLIPBOARD_TRANSFER_SIZE,
};
use lan_mouse::proto::{
    max_clipboard_payload_size, ClipboardData, ProtoEvent, CLIPBOARD_MIME_TEXT, MAX_EVENT_SIZE,
};

fn encode(data: SharedClipboardData) -> Result<Vec<ProtoEvent>, ClipboardError> {
    let mut ids = TransferIds::new();
    encode_clipboard_events(&mut ids, data)
}

#[test]
fn chunks_round_trip_large_plain_text_payload() {
    let text = "clipboard ".repeat(MAX_EVENT_SIZE * 3);
    let data = SharedClipboardData::plain_text(text.clone());
    let events = encode(data).expect("encode clipboard");

    assert!(events.len() > 1);
    let mut receiver = ClipboardTransferReceiver::default();
    let mut decoded = None;
    for event in events {
        let (buf, len) = event.into_datagram();
        assert!(len <= MAX_EVENT_SIZE);
        let event = ProtoEvent::decode(&buf[..len]).expect("decode clipboard event");
        let ProtoEvent::Clipboard(chunk) = event else {
            panic!("expected clipboard event");
        };
        decoded = receiver.push(chunk).expect("push chunk");
    }

    let decoded = decoded.expect("complete transfer");
    assert_eq!(decoded.mime, CLIPBOARD_MIME_TEXT);
    assert_eq!(String::from_utf8(decoded.payload).expect("utf8"), text);
}

#[test]
fn chunks_round_trip_out_of_order() {
    let data = SharedClipboardData::plain_text("out-of-order clipboard chunks".repeat(100));
    let mut chunks = encode(data)
        .expect("encode clipboard")
        .into_iter()
        .map(|event| {
            let ProtoEvent::Clipboard(chunk) = event else {
                panic!("expected clipboard event");
            };
            chunk
        })
        .collect::<Vec<_>>();
    chunks.reverse();

    let mut receiver = ClipboardTransferReceiver::default();
    let mut decoded = None;
    for chunk in chunks {
        decoded = receiver.push(chunk).expect("push chunk");
    }

    let decoded = decoded.expect("complete transfer");
    assert_eq!(
        String::from_utf8(decoded.payload).expect("utf8"),
        "out-of-order clipboard chunks".repeat(100)
    );
}

#[test]
fn receiver_resets_when_new_transfer_starts() {
    let mut ids = TransferIds::new();
    let first = encode_clipboard_events(
        &mut ids,
        SharedClipboardData::plain_text("first transfer ".repeat(MAX_EVENT_SIZE)),
    )
    .expect("encode first")
    .into_iter()
    .map(|event| {
        let ProtoEvent::Clipboard(chunk) = event else {
            panic!("expected clipboard event");
        };
        chunk
    })
    .collect::<Vec<_>>();
    let second =
        encode_clipboard_events(&mut ids, SharedClipboardData::plain_text("second".to_owned()))
            .expect("encode second");
    let ProtoEvent::Clipboard(second) = second.into_iter().next().expect("second chunk") else {
        panic!("expected clipboard event");
    };

    let mut receiver = ClipboardTransferReceiver::default();
    assert!(receiver
        .push(first[0].clone())
        .expect("first chunk")
        .is_none());
    let decoded = receiver
        .push(second)
        .expect("second transfer")
        .expect("complete second transfer");

    assert_eq!(String::from_utf8(decoded.payload).expect("utf8"), "second");
}

#[test]
fn empty_plain_text_payload_is_one_chunk() {
    let data = SharedClipboardData::plain_text(String::new());
    let events = encode(data).expect("encode clipboard");

    assert_eq!(events.len(), 1);
    let ProtoEvent::Clipboard(chunk) = &events[0] else {
        panic!("expected clipboard event");
    };
    assert_eq!(chunk.chunk_count, 1);
    assert_eq!(chunk.payload, b"");
}

#[test]
fn consecutive_transfers_use_distinct_ids() {
    let mut ids = TransferIds::new();
    let first =
        encode_clipboard_events(&mut ids, SharedClipboardData::plain_text("first".to_owned()))
            .expect("encode first");
    let second =
        encode_clipboard_events(&mut ids, SharedClipboardData::plain_text("second".to_owned()))
            .expect("encode second");

    let ProtoEvent::Clipboard(first) = &first[0] else {
        panic!("expected clipboard event");
    };
    let ProtoEvent::Clipboard(second) = &second[0] else {
        panic!("expected clipboard event");
    };
    assert_ne!(first.transfer_id, second.transfer_id);
}

#[test]
fn each_encoded_chunk_fits_one_datagram() {
    let text = "x".repeat(MAX_EVENT_SIZE * 10);
    let data = SharedClipboardData::plain_text(text);
    let events = encode(data).expect("encode clipboard");

    for event in events {
        let (_buf, len) = event.into_datagram();
        assert!(len <= MAX_EVENT_SIZE);
    }
}

#[test]
fn rejects_mime_that_leaves_no_payload_room() {
    let data = SharedClipboardData {
        mime: "x".repeat(MAX_EVENT_SIZE),
        payload: b"hello".to_vec(),
    };

    assert!(matches!(encode(data), Err(ClipboardError::TooLarge)));
}

#[test]
fn rejects_transfers_over_size_limit() {
    let data = SharedClipboardData {
        mime: CLIPBOARD_MIME_TEXT.to_owned(),
        payload: vec![b'x'; MAX_CLIPBOARD_TRANSFER_SIZE + 1],
    };

    assert!(matches!(encode(data), Err(ClipboardError::TooLarge)));
}

#[test]
fn receiver_rejects_unbounded_chunk_count() {
    let mut receiver = ClipboardTransferReceiver::default();
    let chunk = ClipboardData {
        transfer_id: 1,
        chunk_index: 0,
        chunk_count: u16::MAX,
        mime: CLIPBOARD_MIME_TEXT.to_owned(),
        payload: b"x".to_vec(),
    };

    assert!(matches!(receiver.push(chunk), Err(ClipboardError::TooLarge)));
}

#[test]
fn transfer_ids_count_up_from_one_and_wrap() {
    let mut ids = TransferIds::new();
    assert_eq!(ids.next_transfer_id(), 1);
    assert_eq!(ids.next_transfer_id(), 2);
    let _ = encode_clipboard_events(
        &mut ids,
        SharedClipboardData {
            mime: "x".repeat(MAX_EVENT_SIZE),
            payload: vec![],
        },
    );
    assert_eq!(ids.next_transfer_id(), 4);
}

#[test]
fn chunks_split_payload_at_room_boundaries() {
    let room = max_clipboard_payload_size("m");
    let payload: Vec<u8> = (0..(room * 2 + 5)).map(|i| (i % 251) as u8).collect();
    let events = encode(SharedClipboardData {
        mime: "m".to_owned(),
        payload: payload.clone(),
    })
    .expect("encode");
    assert_eq!(events.len(), 3);
    for (i, event) in events.iter().enumerate() {
        let ProtoEvent::Clipboard(chunk) = event else {
            panic!("expected clipboard event");
        };
        assert_eq!(chunk.transfer_id, 1);
        assert_eq!(chunk.chunk_index as usize, i);
        assert_eq!(chunk.chunk_count, 3);
        assert_eq!(chunk.mime, "m");
        let end = ((i + 1) * room).min(payload.len());
        assert_eq!(chunk.payload, payload[i * room..end].to_vec());
    }
}

#[test]
fn receiver_rejects_misshapen_chunks() {
    let base = ClipboardData {
        transfer_id: 5,
        chunk_index: 0,
        chunk_count: 2,
        mime: CLIPBOARD_MIME_TEXT.to_owned(),
        payload: vec![1],
    };
    let zero_count = ClipboardData {
        chunk_count: 0,
        ..base.clone()
    };
    assert_eq!(validate_chunk_shape(&zero_count), Err(ClipboardError::Incomplete));
    let bad_index = ClipboardData {
        chunk_index: 2,
        ..base.clone()
    };
    assert_eq!(validate_chunk_shape(&bad_index), Err(ClipboardError::Incomplete));
    let oversized = ClipboardData {
        payload: vec![0; max_clipboard_payload_size(CLIPBOARD_MIME_TEXT) + 1],
        ..base.clone()
    };
    assert_eq!(validate_chunk_shape(&oversized), Err(ClipboardError::TooLarge));
    assert_eq!(validate_chunk_shape(&base), Ok(()));

    let mut receiver = ClipboardTransferReceiver::new();
    assert_eq!(receiver.push(bad_index).unwrap_err(), ClipboardError::Incomplete);
    assert!(receiver.push(base.clone()).expect("first").is_none());
    let last = ClipboardData {
        chunk_index: 1,
        payload: vec![2, 3],
        ..base.clone()
    };
    let done = receiver.push(last).expect("second").expect("complete");
    assert_eq!(done.payload, vec![1, 2, 3]);
}

#[test]
fn repeated_chunk_overwrites_its_slot() {
    let chunk = |index: u16, payload: Vec<u8>| ClipboardData {
        transfer_id: 9,
        chunk_index: index,
        chunk_count: 2,
        mime: CLIPBOARD_MIME_TEXT.to_owned(),
        payload,
    };
    let mut receiver = ClipboardTransferReceiver::new();
    assert!(receiver.push(chunk(0, vec![1])).unwrap().is_none());
    assert!(receiver.push(chunk(0, vec![4])).unwrap().is_none());
    let done = receiver.push(chunk(1, vec![5])).unwrap().unwrap();
    assert_eq!(done.payload, vec![4, 5]);
}

#[test]
fn plain_text_and_back() {
    let data = SharedClipboardData::plain_text("héllo".to_owned());
    assert_eq!(data.mime, CLIPBOARD_MIME_TEXT);
    assert_eq!(data.payload, "héllo".as_bytes().to_vec());
    assert_eq!(data.as_text(), Ok(Some("héllo".to_owned())));

    let other = SharedClipboardData {
        mime: "image/png".to_owned(),
        payload: vec![0xff],
    };
    assert_eq!(other.as_text(), Ok(None));

    let broken = SharedClipboardData {
        mime: CLIPBOARD_MIME_TEXT.to_owned(),
        payload: vec![0xff, 0xfe],
    };
    assert_eq!(broken.as_text(), Err(ClipboardError::Utf8));
}
