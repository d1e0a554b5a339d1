//! Wire protocol scenarios: encoding round trips, framing, dispatch,
//! and the propagation plan.

use worldsync::config::Device;
use worldsync::coordinator::{
    apply_message, handle_frame, process_change_event, ChangeEvent, InboundAction,
};
use worldsync::errors::SyncError;
use worldsync::file_manager::FileManager;
use worldsync::framing::{frame_message, FrameReader};
use worldsync::network::{SyncClient, SyncServer};
use worldsync::protocol::{decode_message, encode_message, SyncMessage};

fn round_trip(msg: SyncMessage) -> SyncMessage {
    let body = encode_message(&msg).unwrap();
    decode_message(&body).unwrap()
}

#[test]
fn round_trip_file_change() {
    let got = round_trip(SyncMessage::FileChange {
        path: "a/b.txt".to_string(),
        change_type: "modify".to_string(),
    });
    match got {
        SyncMessage::FileChange { path, change_type } => {
            assert_eq!(path, "a/b.txt");
            assert_eq!(change_type, "modify");
        }
        _ => panic!("wrong variant"),
    }
}

#[test]
fn round_trip_file_change_empty_path() {
    let got = round_trip(SyncMessage::FileChange {
        path: String::new(),
        change_type: String::new(),
    });
    match got {
        SyncMessage::FileChange { path, change_type } => {
            assert_eq!(path, "");
            assert_eq!(change_type, "");
        }
        _ => panic!("wrong variant"),
    }
}

#[test]
fn round_trip_file_content() {
    let got = round_trip(SyncMessage::FileContent {
        path: "dir/data.bin".to_string(),
        content: vec![0, 1, 2, 255],
    });
    match got {
        SyncMessage::FileContent { path, content } => {
            assert_eq!(path, "dir/data.bin");
            assert_eq!(content, vec![0, 1, 2, 255]);
        }
        _ => panic!("wrong variant"),
    }
}

#[test]
fn round_trip_file_content_empty_bytes() {
    let got = round_trip(SyncMessage::FileContent {
        path: "empty.bin".to_string(),
        content: Vec::new(),
    });
    match got {
        SyncMessage::FileContent { path, content } => {
            assert_eq!(path, "empty.bin");
            assert!(content.is_empty());
        }
        _ => panic!("wrong variant"),
    }
}

#[test]
fn round_trip_requests() {
    assert!(matches!(round_trip(SyncMessage::SyncRequest), SyncMessage::SyncRequest));
    assert!(matches!(round_trip(SyncMessage::SyncResponse), SyncMessage::SyncResponse));
}

#[test]
fn malformed_bodies_are_protocol_failures() {
    assert!(matches!(decode_message(&[]), Err(SyncError::ProtocolFailure)));
    assert!(matches!(decode_message(&[9]), Err(SyncError::ProtocolFailure)));
    assert!(matches!(decode_message(&[1, 5, 0, 0, 0]), Err(SyncError::ProtocolFailure)));
    // A trailing byte after a complete message is rejected too.
    let mut body = encode_message(&SyncMessage::SyncRequest).unwrap();
    body.push(0);
    assert!(matches!(decode_message(&body), Err(SyncError::ProtocolFailure)));
}

#[test]
fn two_frames_survive_arbitrary_chunking() {
    let first = encode_message(&SyncMessage::FileChange {
        path: "w.dat".to_string(),
        change_type: "modify".to_string(),
    })
    .unwrap();
    let second = encode_message(&SyncMessage::FileContent {
        path: "w.dat".to_string(),
        content: vec![42, 43],
    })
    .unwrap();
    let mut stream = frame_message(&first).unwrap();
    stream.extend(frame_message(&second).unwrap());

    // Feed the combined stream in deliberately awkward chunks.
    let mut reader = FrameReader::new();
    let cut_one = 3.min(stream.len());
    let cut_two = (stream.len() / 2).max(cut_one);
    reader.feed(&stream[..cut_one]);
    assert!(reader.next_frame().is_none());
    reader.feed(&stream[cut_one..cut_two]);
    reader.feed(&stream[cut_two..]);

    let body_one = reader.next_frame().unwrap();
    assert_eq!(body_one, first);
    let body_two = reader.next_frame().unwrap();
    assert_eq!(body_two, second);
    assert!(reader.next_frame().is_none());
}

#[test]
fn oversized_length_prefix_poisons_the_reader() {
    let mut reader = FrameReader::new();
    assert!(!reader.is_corrupted());
    // A little-endian prefix announcing u32::MAX bytes: no peer of
    // this system frames such a body, so the boundary is lost.
    reader.feed(&[0xff, 0xff, 0xff, 0xff]);
    assert!(reader.next_frame().is_none());
    assert!(reader.is_corrupted());
    // Nothing more ever comes out, however much arrives afterwards.
    let good = frame_message(&vec![1, 2, 3]).unwrap();
    reader.feed(&good);
    assert!(reader.next_frame().is_none());
    assert!(reader.is_corrupted());
}

#[test]
fn frame_cap_bounds_the_sender_too() {
    let body = vec![0u8; 0x0080_0001];
    assert!(matches!(frame_message(&body), Err(SyncError::ProtocolFailure)));
    let body = vec![0u8; 16];
    assert!(frame_message(&body).is_ok());
}

#[test]
fn file_change_through_framing_layer() {
    let client = SyncClient::new("peer:9100".to_string());
    let frame = client.file_change_frame("w.dat", "modify").unwrap();

    let mut reader = FrameReader::new();
    reader.feed(&frame);
    let body = reader.next_frame().unwrap();
    match decode_message(&body).unwrap() {
        SyncMessage::FileChange { path, change_type } => {
            assert_eq!(path, "w.dat");
            assert_eq!(change_type, "modify");
        }
        _ => panic!("wrong variant"),
    }
    assert!(reader.next_frame().is_none());
}

#[test]
fn dispatch_rejects_unsafe_inbound_paths() {
    let write = SyncMessage::FileContent { path: "../../etc/passwd".to_string(), content: vec![0] };
    assert!(matches!(apply_message(write), Err(SyncError::PathSafetyViolation)));
    let note = SyncMessage::FileChange {
        path: "..".to_string(),
        change_type: "remove".to_string(),
    };
    assert!(matches!(apply_message(note), Err(SyncError::PathSafetyViolation)));
}

#[test]
fn dispatch_actions_per_variant() {
    let write = SyncMessage::FileContent { path: "a/b".to_string(), content: vec![7] };
    match apply_message(write).unwrap() {
        InboundAction::WriteFile { path, content } => {
            assert_eq!(path, "a/b");
            assert_eq!(content, vec![7]);
        }
        _ => panic!("wrong action"),
    }
    assert!(matches!(
        apply_message(SyncMessage::SyncRequest).unwrap(),
        InboundAction::StateRequested
    ));
    assert!(matches!(
        apply_message(SyncMessage::SyncResponse).unwrap(),
        InboundAction::StateReceived
    ));
    assert!(matches!(handle_frame(&[255, 255]), Err(SyncError::ProtocolFailure)));
}

#[test]
fn one_unreachable_device_does_not_block_the_other() {
    let mut manager = FileManager::new("root".to_string());
    let devices = vec![
        Device { name: "unreachable".to_string(), address: "10.0.0.1:9100".to_string() },
        Device { name: "reachable".to_string(), address: "10.0.0.2:9100".to_string() },
    ];
    let event = ChangeEvent {
        path: "w.dat".to_string(),
        change_type: "modify".to_string(),
        last_modified: 11,
        content: Some(vec![1, 2, 3]),
    };
    let sends = process_change_event(&mut manager, &event, &devices).unwrap();
    assert_eq!(sends.len(), 2);

    // The first peer is unreachable: the application logs a network
    // failure and goes on to the next planned send regardless.
    let mut delivered = 0;
    let mut failures: Vec<SyncError> = Vec::new();
    for send in &sends {
        if send.device_name == "unreachable" {
            failures.push(SyncError::NetworkFailure);
            continue;
        }
        let mut reader = FrameReader::new();
        reader.feed(&send.frame);
        let body = reader.next_frame().unwrap();
        match decode_message(&body).unwrap() {
            SyncMessage::FileChange { path, change_type } => {
                assert_eq!(path, "w.dat");
                assert_eq!(change_type, "modify");
                delivered += 1;
            }
            _ => panic!("wrong variant"),
        }
    }
    assert_eq!(delivered, 1);
    assert_eq!(failures.len(), 1);
    assert!(matches!(failures[0], SyncError::NetworkFailure));
}

#[test]
fn unchanged_content_plans_no_sends() {
    let mut manager = FileManager::new("root".to_string());
    let devices = vec![Device { name: "peer".to_string(), address: "p:1".to_string() }];
    let event = ChangeEvent {
        path: "w.dat".to_string(),
        change_type: "modify".to_string(),
        last_modified: 11,
        content: Some(vec![1, 2, 3]),
    };
    let sends = process_change_event(&mut manager, &event, &devices).unwrap();
    assert_eq!(sends.len(), 1);
    let again = ChangeEvent {
        path: "w.dat".to_string(),
        change_type: "modify".to_string(),
        last_modified: 12,
        content: Some(vec![1, 2, 3]),
    };
    let sends = process_change_event(&mut manager, &again, &devices).unwrap();
    assert_eq!(sends.len(), 0);
}

#[test]
fn change_event_failures() {
    let mut manager = FileManager::new("root".to_string());
    let devices = Vec::new();
    let unsafe_event = ChangeEvent {
        path: "../w.dat".to_string(),
        change_type: "modify".to_string(),
        last_modified: 1,
        content: Some(vec![1]),
    };
    assert!(matches!(
        process_change_event(&mut manager, &unsafe_event, &devices),
        Err(SyncError::PathSafetyViolation)
    ));
    let unreadable = ChangeEvent {
        path: "w.dat".to_string(),
        change_type: "modify".to_string(),
        last_modified: 1,
        content: None,
    };
    assert!(matches!(
        process_change_event(&mut manager, &unreadable, &devices),
        Err(SyncError::IoFailure)
    ));
}

#[test]
fn endpoints_report_their_configuration() {
    let server = SyncServer::new(9100);
    assert_eq!(server.port(), 9100);
    let client = SyncClient::new("host:9100".to_string());
    assert_eq!(client.server_address(), "host:9100");
    let frame = client.sync_request_frame();
    let mut reader = FrameReader::new();
    reader.feed(&frame);
    let body = reader.next_frame().unwrap();
    assert!(matches!(decode_message(&body).unwrap(), SyncMessage::SyncRequest));
}

#[test]
fn error_descriptions_name_each_failure() {
    assert_eq!(SyncError::IoFailure.describe(), "file could not be read or written");
    assert_eq!(
        SyncError::PermissionDenied.describe(),
        "permission denied; elevated privilege required"
    );
    assert_eq!(SyncError::NetworkFailure.describe(), "peer could not be reached");
    assert_eq!(SyncError::ProtocolFailure.describe(), "message body could not be decoded");
    assert_eq!(
        SyncError::PathSafetyViolation.describe(),
        "path would escape the sync root"
    );
}
