use capsule::wire::{decode, encode, Message};

fn round_trip(message: Message) -> Message {
    decode(&encode(message)).unwrap()
}

#[test]
fn a_registration_on_the_wire() {
    let fields = encode(Message::Register { pid: 4242, exe: String::from("game.exe") });
    assert_eq!(
        fields,
        vec![vec![0u8], vec![0x92, 0x10, 0, 0, 0, 0, 0, 0], b"game.exe".to_vec()]
    );
    assert!(matches!(
        decode(&fields),
        Some(Message::Register { pid: 4242, exe }) if exe == "game.exe"
    ));
}

#[test]
fn messages_without_fields_on_the_wire() {
    assert_eq!(encode(Message::Hotkey), vec![vec![1u8]]);
    assert_eq!(encode(Message::Probe), vec![vec![10u8]]);
    assert!(matches!(round_trip(Message::Hotkey), Message::Hotkey));
    assert!(matches!(round_trip(Message::Probe), Message::Probe));
}

#[test]
fn a_surface_on_the_wire() {
    let fields = encode(Message::Accepted {
        session: 1,
        width: 1920,
        height: 1080,
        pitch: 7680,
        vflip: true,
    });
    assert_eq!(
        fields,
        vec![
            vec![3u8],
            vec![1, 0, 0, 0, 0, 0, 0, 0],
            vec![0x80, 0x07, 0, 0, 0, 0, 0, 0],
            vec![0x38, 0x04, 0, 0, 0, 0, 0, 0],
            vec![0x00, 0x1E, 0, 0, 0, 0, 0, 0],
            vec![1],
        ]
    );
    assert!(matches!(
        decode(&fields),
        Some(Message::Accepted { session: 1, width: 1920, height: 1080, pitch: 7680, vflip: true })
    ));
}

#[test]
fn a_frame_on_the_wire() {
    let message = Message::Frame {
        session: 7,
        index: u64::MAX,
        timestamp: 944,
        width: 2,
        height: 1,
        pitch: 8,
        vflip: false,
        data: vec![1, 2, 3, 4, 5, 6, 7, 8],
    };
    let fields = encode(message);
    assert_eq!(fields.len(), 9);
    assert_eq!(fields[0], vec![5u8]);
    assert_eq!(fields[2], vec![0xFF; 8]);
    assert_eq!(fields[3], vec![0xB0, 0x03, 0, 0, 0, 0, 0, 0]);
    assert_eq!(fields[7], vec![0u8]);
    assert_eq!(fields[8], vec![1, 2, 3, 4, 5, 6, 7, 8]);
    match decode(&fields) {
        Some(Message::Frame { session, index, timestamp, width, height, pitch, vflip, data }) => {
            assert_eq!((session, index, timestamp), (7, u64::MAX, 944));
            assert_eq!((width, height, pitch, vflip), (2, 1, 8, false));
            assert_eq!(data, vec![1, 2, 3, 4, 5, 6, 7, 8]);
        }
        other => panic!("unexpected {:?}", other),
    }
}

#[test]
fn every_kind_of_message_survives_the_wire() {
    assert!(matches!(round_trip(Message::StartCapture { session: 3 }), Message::StartCapture { session: 3 }));
    assert!(matches!(
        round_trip(Message::Rejected { session: 3, reason: String::from("No viable video context!") }),
        Message::Rejected { session: 3, reason } if reason == "No viable video context!"
    ));
    assert!(matches!(round_trip(Message::FrameAck { index: 59 }), Message::FrameAck { index: 59 }));
    assert!(matches!(
        round_trip(Message::FrameRefused { index: 60, reason: String::from("SessionStopped") }),
        Message::FrameRefused { index: 60, reason } if reason == "SessionStopped"
    ));
    assert!(matches!(round_trip(Message::Stop { session: 9 }), Message::Stop { session: 9 }));
    assert!(matches!(round_trip(Message::Stopped { session: 9 }), Message::Stopped { session: 9 }));
    assert!(matches!(
        round_trip(Message::ProbeAnswer { pid: 1, exe: String::from("jeu\u{301}.exe \u{1F3AE}") }),
        Message::ProbeAnswer { pid: 1, exe } if exe == "jeu\u{301}.exe \u{1F3AE}"
    ));
    assert!(matches!(
        round_trip(Message::Malformed { reason: String::new() }),
        Message::Malformed { reason } if reason.is_empty()
    ));
}

#[test]
fn what_is_no_encoding_is_refused() {
    let number = vec![1u8, 0, 0, 0, 0, 0, 0, 0];
    // No kind.
    assert!(decode(&vec![]).is_none());
    assert!(decode(&vec![vec![]]).is_none());
    assert!(decode(&vec![vec![1, 1]]).is_none());
    // An unknown kind.
    assert!(decode(&vec![vec![13]]).is_none());
    assert!(decode(&vec![vec![255]]).is_none());
    // Too many or too few fields.
    assert!(decode(&vec![vec![1], vec![]]).is_none());
    assert!(decode(&vec![vec![2]]).is_none());
    assert!(decode(&vec![vec![2], number.clone(), number.clone()]).is_none());
    assert!(decode(&vec![vec![0], number.clone()]).is_none());
    // A number of the wrong length.
    assert!(decode(&vec![vec![2], vec![1, 0, 0, 0, 0, 0, 0]]).is_none());
    assert!(decode(&vec![vec![2], vec![1, 0, 0, 0, 0, 0, 0, 0, 0]]).is_none());
    // A text that is not UTF-8.
    assert!(decode(&vec![vec![0], number.clone(), vec![0xFF]]).is_none());
    assert!(decode(&vec![vec![12], vec![0xC0, 0x80]]).is_none());
    assert!(decode(&vec![vec![12], vec![0xED, 0xA0, 0x80]]).is_none());
    // A side beyond 32 bits.
    let wide = vec![0u8, 0, 0, 0, 1, 0, 0, 0];
    assert!(decode(&vec![vec![3], number.clone(), wide, number.clone(), number.clone(), vec![1]])
        .is_none());
    // A flag that is neither 0 nor 1.
    assert!(decode(&vec![
        vec![3],
        number.clone(),
        number.clone(),
        number.clone(),
        number.clone(),
        vec![2]
    ])
    .is_none());
    assert!(decode(&vec![
        vec![3],
        number.clone(),
        number.clone(),
        number.clone(),
        number.clone(),
        vec![]
    ])
    .is_none());
    // The same with a proper flag is a message.
    assert!(decode(&vec![
        vec![3],
        number.clone(),
        number.clone(),
        number.clone(),
        number.clone(),
        vec![0]
    ])
    .is_some());
}
