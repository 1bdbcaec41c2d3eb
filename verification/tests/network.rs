use vesper::file_names::sanitize_file_name;
use vesper::transfer::{
    accept_announcement, admit_file, check_frame_length, check_frame_magic, decision_status,
    download_candidate_name, encode_request_frame, incoming_request, interpret_send_status,
    next_read_limit, normalize_device_name, normalize_pair_code, pair_code_from_seed,
    pair_request_accepted, pairing_payload, safe_file_name, safe_file_name_from, to_hex,
    transfer_error, verify_checksum, generate_pair_code, content_checksum_hex,
    verify_received_content, first_free_download_name, approval_granted, receive_step, ReceiveAction,
    ReceiveInput, ReceivePhase, before_read, after_read, interpret_final_ack, ReceiveGate, DeviceInfo, FileAdmission,
    PersistedSettings, TrustedDevice, CHUNK_SIZE, DEFAULT_MAX_FILE_SIZE, STATUS_ACCEPTED,
    STATUS_BUSY, STATUS_REJECTED,
};

#[test]
fn removes_path_traversal_and_windows_reserved_characters() {
    assert_eq!(sanitize_file_name("../../bad:name?.txt"), "_.._bad_name_.txt");
    assert_eq!(sanitize_file_name("CON.txt"), "_CON.txt");
}

#[test]
fn substitutes_empty_file_name() {
    assert_eq!(sanitize_file_name("..."), "file");
}

#[test]
fn validates_pair_code() {
    assert_eq!(normalize_pair_code("123 456").unwrap(), "123456");
    assert!(normalize_pair_code("12345").is_err());
}

#[test]
fn reserved_device_names_get_an_underscore() {
    assert_eq!(sanitize_file_name("COM1.log"), "_COM1.log");
    assert_eq!(sanitize_file_name("com+1.log"), "_com+1.log");
    assert_eq!(sanitize_file_name("lpt9"), "_lpt9");
    assert_eq!(sanitize_file_name("nul"), "_nul");
    assert_eq!(sanitize_file_name("CLOCK$.txt"), "_CLOCK$.txt");
    assert_eq!(sanitize_file_name("COM10.txt"), "COM10.txt");
    assert_eq!(sanitize_file_name("COM"), "COM");
    assert_eq!(sanitize_file_name("console.txt"), "console.txt");
}

#[test]
fn control_characters_and_edges_are_cleaned() {
    assert_eq!(sanitize_file_name("a\tb.txt"), "a_b.txt");
    assert_eq!(sanitize_file_name("  name. . "), "name");
    assert_eq!(sanitize_file_name(""), "file");
    assert_eq!(sanitize_file_name("  "), "file");
    let long: String = std::iter::repeat('a').take(200).collect();
    let expected: String = std::iter::repeat('a').take(180).collect();
    assert_eq!(sanitize_file_name(&long), expected);
}

#[test]
fn pair_codes_keep_only_digits() {
    assert_eq!(normalize_pair_code(" 12-34-56 ").unwrap(), "123456");
    assert_eq!(normalize_pair_code("1234567").unwrap_err(), "6자리 페어링 코드를 입력해 주세요.");
    assert!(normalize_pair_code("abcdef").is_err());
}

#[test]
fn pair_code_comes_from_the_seed() {
    assert_eq!(pair_code_from_seed(0), "000000");
    assert_eq!(pair_code_from_seed(42), "000042");
    assert_eq!(pair_code_from_seed(1_234_567), "234567");
    // Only the low 32 bits count: 2^32 + 7 gives 7.
    assert_eq!(pair_code_from_seed((1u128 << 32) + 7), "000007");
    let fresh = generate_pair_code();
    assert_eq!(fresh.len(), 6);
    assert!(fresh.chars().all(|c| c.is_ascii_digit()));
    assert_eq!(normalize_pair_code(&fresh).unwrap(), fresh);
}

#[test]
fn device_names_are_trimmed_and_cut() {
    assert_eq!(normalize_device_name("  Laptop  ").unwrap(), "Laptop");
    assert_eq!(normalize_device_name("   ").unwrap_err(), "기기 이름을 입력해 주세요.");
    let long: String = std::iter::repeat('x').take(60).collect();
    assert_eq!(normalize_device_name(&long).unwrap().chars().count(), 48);
}

#[test]
fn pairing_uri_escapes_the_name() {
    let p = pairing_payload("dev-1", "A&B?C=D", "192.168.0.7", "123456");
    assert_eq!(
        p.uri,
        "vesperdrop://lan-pair?deviceId=dev-1&name=A_B_C_D&ip=192.168.0.7&code=123456"
    );
    assert_eq!(p.code, "123456");
    assert_eq!(p.ip, "192.168.0.7");
}

#[test]
fn hex_digest_is_lowercase_two_digits_per_byte() {
    assert_eq!(to_hex(&[0x00, 0x0f, 0xab, 0xff]), "000fabff");
    assert_eq!(to_hex(&[]), "");
}

#[test]
fn transfer_error_prefixes_the_message() {
    assert_eq!(transfer_error("broken pipe"), "파일 전송 중 오류가 발생했습니다: broken pipe");
}

#[test]
fn request_frames_round_trip() {
    let payload = b"{\"type\":\"pair\"}".to_vec();
    let frame = encode_request_frame(&payload).unwrap();
    assert_eq!(&frame[0..8], b"CDROP002");
    assert_eq!(&frame[8..12], &(payload.len() as u32).to_be_bytes());
    assert_eq!(&frame[12..], &payload[..]);
    assert!(check_frame_magic(&frame[0..8]).is_ok());
    assert_eq!(check_frame_length(&frame[8..12]).unwrap(), payload.len());
}

#[test]
fn frame_errors() {
    assert_eq!(encode_request_frame(&vec![0u8; 16 * 1024 + 1]).unwrap_err(), "연결 정보가 너무 큽니다.");
    assert!(encode_request_frame(&vec![0u8; 16 * 1024]).is_ok());
    assert_eq!(check_frame_magic(b"CDROP001").unwrap_err(), "Vesper Drop 파일 연결이 아닙니다.");
    assert_eq!(check_frame_length(&[0, 0, 0, 0]).unwrap_err(), "연결 정보의 크기가 올바르지 않습니다.");
    assert!(check_frame_length(&[0, 0, 0x40, 0x01]).is_err());
    assert_eq!(check_frame_length(&[0, 0, 0x40, 0x00]).unwrap(), 16384);
}

#[test]
fn admission_order_is_busy_size_trust() {
    assert!(matches!(admit_file(true, 10, 5, true), FileAdmission::Busy));
    match admit_file(false, 10, 5, true) {
        FileAdmission::TooLarge(m) => assert_eq!(m, "허용된 최대 파일 크기를 초과했습니다: 10 bytes"),
        _ => panic!("expected a size refusal"),
    }
    assert!(matches!(admit_file(false, 5, 5, true), FileAdmission::Accept));
    assert!(matches!(admit_file(false, 5, 5, false), FileAdmission::AskUser));
}

#[test]
fn status_bytes() {
    assert_eq!(decision_status(true), STATUS_ACCEPTED);
    assert_eq!(decision_status(false), STATUS_REJECTED);
    assert!(interpret_send_status(STATUS_ACCEPTED).is_ok());
    assert_eq!(interpret_send_status(STATUS_BUSY).unwrap_err(), "상대 기기가 다른 파일을 받고 있습니다.");
    assert_eq!(
        interpret_send_status(7).unwrap_err(),
        "상대 기기에서 수신을 거절했거나 요청이 만료되었습니다."
    );
    assert!(pair_request_accepted(&"123456".to_owned(), &"123456".to_owned()));
    assert!(!pair_request_accepted(&"123457".to_owned(), &"123456".to_owned()));
}

#[test]
fn reads_are_at_most_one_chunk() {
    assert_eq!(next_read_limit(10, 3), 7);
    assert_eq!(next_read_limit(5 * CHUNK_SIZE as u64, 0), CHUNK_SIZE);
    assert_eq!(next_read_limit(5, 5), 0);
}

#[test]
fn checksums_must_match() {
    assert!(verify_checksum(&[1, 2, 3], &[1, 2, 3]).is_ok());
    assert_eq!(verify_checksum(&[1, 2, 3], &[1, 2, 4]).unwrap_err(), "파일 체크섬이 일치하지 않습니다.");
}

#[test]
fn own_announcements_are_dropped() {
    let d = DeviceInfo {
        id: "me".to_owned(),
        name: "Mine".to_owned(),
        ip: "0.0.0.0".to_owned(),
        port: 48889,
        os: "windows".to_owned(),
    };
    assert!(accept_announcement(d, &"me".to_owned(), "10.0.0.2".to_owned()).is_none());
    let other = DeviceInfo {
        id: "peer".to_owned(),
        name: "Peer".to_owned(),
        ip: "0.0.0.0".to_owned(),
        port: 48889,
        os: "android".to_owned(),
    };
    let seen = accept_announcement(other, &"me".to_owned(), "10.0.0.2".to_owned()).unwrap();
    assert_eq!(seen.ip, "10.0.0.2");
    assert_eq!(seen.name, "Peer");
}

#[test]
fn incoming_requests_show_the_stored_name() {
    let r = incoming_request("t1".to_owned(), "d1".to_owned(), "Phone".to_owned(), "a:b.txt", 12);
    assert_eq!(r.file_name, "a_b.txt");
    assert_eq!(r.file_size, 12);
    assert_eq!(r.device_name, "Phone");
}

#[test]
fn trust_replaces_and_forget_removes() {
    let mut s = PersistedSettings::fresh("me".to_owned(), "Mine".to_owned());
    assert_eq!(s.max_file_size, DEFAULT_MAX_FILE_SIZE);
    assert!(!s.is_trusted(&"a".to_owned()));
    s.trust(TrustedDevice { id: "a".to_owned(), name: "A".to_owned() });
    s.trust(TrustedDevice { id: "b".to_owned(), name: "B".to_owned() });
    s.trust(TrustedDevice { id: "a".to_owned(), name: "A2".to_owned() });
    assert_eq!(s.trusted_devices.len(), 2);
    assert_eq!(s.trusted_devices[0].id, "b");
    assert_eq!(s.trusted_devices[1].name, "A2");
    assert!(s.is_trusted(&"a".to_owned()));
    s.forget_device(&"a".to_owned());
    assert!(!s.is_trusted(&"a".to_owned()));
    assert!(s.is_trusted(&"b".to_owned()));
    let public = s.public_view("654321".to_owned());
    assert_eq!(public.pair_code, "654321");
    assert_eq!(public.trusted_devices.len(), 1);
}

#[test]
fn stored_names_and_duplicates() {
    assert_eq!(safe_file_name_from(None), "file");
    assert_eq!(safe_file_name_from(Some("x?.txt")), "x_.txt");
    assert_eq!(safe_file_name("dir/report.pdf"), "report.pdf");
    assert_eq!(download_candidate_name("report.pdf", 0), "report.pdf");
    assert_eq!(download_candidate_name("report.pdf", 2), "report (2).pdf");
    assert_eq!(download_candidate_name("archive.tar.gz", 1), "archive.tar (1).gz");
    assert_eq!(download_candidate_name(".bashrc", 3), ".bashrc (3)");
    assert_eq!(download_candidate_name("README", 1), "README (1)");
}

#[test]
fn checksums_are_sha256_of_the_content() {
    assert_eq!(
        content_checksum_hex(b"abc"),
        "ba7816bf8f01cfea414140de5dae2223b00361a396177a9cb410ff61f20015ad"
    );
    assert_eq!(
        content_checksum_hex(b""),
        "e3b0c44298fc1c149afbf4c8996fb92427ae41e4649b934ca495991b7852b855"
    );
}

#[test]
fn received_content_is_checked_against_the_sender_digest() {
    let digest: Vec<u8> = (0..32)
        .map(|i| {
            u8::from_str_radix(
                &"ba7816bf8f01cfea414140de5dae2223b00361a396177a9cb410ff61f20015ad"[2 * i..2 * i + 2],
                16,
            )
            .unwrap()
        })
        .collect();
    assert!(verify_received_content(b"abc", &digest).is_ok());
    assert_eq!(
        verify_received_content(b"abd", &digest).unwrap_err(),
        "파일 체크섬이 일치하지 않습니다."
    );
}

#[test]
fn copy_steps() {
    assert_eq!(before_read(10, 3, true).unwrap_err(), "전송을 취소했습니다.");
    assert_eq!(before_read(10, 3, false).unwrap(), 7);
    assert_eq!(before_read(u64::MAX, 0, false).unwrap(), CHUNK_SIZE);
    assert_eq!(after_read(10, 3, 0).unwrap_err(), "파일 전송이 예정보다 일찍 종료되었습니다.");
    assert_eq!(after_read(10, 3, 7).unwrap(), 10);
}

#[test]
fn send_completes_only_after_the_receiver_confirms() {
    assert!(interpret_final_ack(STATUS_ACCEPTED).is_ok());
    assert_eq!(interpret_final_ack(STATUS_REJECTED).unwrap_err(), "수신 측 파일 검증에 실패했습니다.");
    assert_eq!(interpret_final_ack(STATUS_BUSY).unwrap_err(), "수신 측 파일 검증에 실패했습니다.");
}

#[test]
fn one_file_is_received_at_a_time() {
    let mut gate = ReceiveGate::new();
    assert!(matches!(gate.admit_request(10, 100, true), FileAdmission::Accept));
    assert!(gate.receiving());
    assert!(matches!(gate.admit_request(10, 100, true), FileAdmission::Busy));
    assert!(matches!(gate.admit_request(10, 100, false), FileAdmission::Busy));
    gate.release();
    assert!(matches!(gate.admit_request(1000, 100, true), FileAdmission::TooLarge(_)));
    assert!(!gate.receiving());
    assert!(matches!(gate.admit_request(10, 100, false), FileAdmission::AskUser));
    assert!(gate.receiving());
}

#[test]
fn offered_names_come_from_the_last_component() {
    assert_eq!(safe_file_name(""), "file");
    assert_eq!(safe_file_name("a/b/CON.txt"), "_CON.txt");
    assert_eq!(safe_file_name("/tmp/report.pdf"), "report.pdf");
}

#[test]
fn sanitizing_a_stored_name_keeps_it() {
    for name in ["../../bad:name?.txt", "CON.txt", "...", " a. b . ", "com1", "report.pdf", "\tx\n", "AUX"] {
        let once = sanitize_file_name(name);
        assert_eq!(sanitize_file_name(&once), once);
    }
}

#[test]
fn the_first_free_name_is_chosen() {
    let taken = vec!["a.txt".to_owned(), "a (1).txt".to_owned()];
    assert_eq!(first_free_download_name("a.txt", &taken).unwrap(), "a (2).txt");
    assert_eq!(first_free_download_name("b.txt", &taken).unwrap(), "b.txt");
    assert_eq!(first_free_download_name("a", &vec!["a".to_owned()]).unwrap(), "a (1)");
}

#[test]
fn no_answer_means_no() {
    assert!(approval_granted(Some(true)));
    assert!(!approval_granted(Some(false)));
    assert!(!approval_granted(None));
}

#[test]
fn a_receive_session_confirms_only_a_checked_file() {
    let request = |busy, size, trusted| ReceiveInput::Request { busy, file_size: size, max_file_size: 100, trusted };
    assert!(matches!(receive_step(ReceivePhase::Admitting, request(true, 1, true)), (ReceivePhase::Finished, ReceiveAction::Reply(s)) if s == STATUS_BUSY));
    assert!(matches!(receive_step(ReceivePhase::Admitting, request(false, 101, true)), (ReceivePhase::Finished, ReceiveAction::Reply(s)) if s == STATUS_REJECTED));
    assert!(matches!(receive_step(ReceivePhase::Admitting, request(false, 10, true)), (ReceivePhase::Transferring, ReceiveAction::Reply(s)) if s == STATUS_ACCEPTED));
    assert!(matches!(receive_step(ReceivePhase::Admitting, request(false, 10, false)), (ReceivePhase::AwaitingUser, ReceiveAction::AskUser)));
    assert!(matches!(receive_step(ReceivePhase::AwaitingUser, ReceiveInput::UserAnswer(None)), (ReceivePhase::Finished, ReceiveAction::Reply(s)) if s == STATUS_REJECTED));
    assert!(matches!(receive_step(ReceivePhase::AwaitingUser, ReceiveInput::UserAnswer(Some(true))), (ReceivePhase::Transferring, ReceiveAction::Reply(s)) if s == STATUS_ACCEPTED));
    assert!(matches!(receive_step(ReceivePhase::Transferring, ReceiveInput::Completed { digest_matches: false }), (ReceivePhase::Finished, ReceiveAction::Reply(s)) if s == STATUS_REJECTED));
    assert!(matches!(receive_step(ReceivePhase::Transferring, ReceiveInput::Completed { digest_matches: true }), (ReceivePhase::Finished, ReceiveAction::Reply(s)) if s == STATUS_ACCEPTED));
    assert!(matches!(receive_step(ReceivePhase::Transferring, ReceiveInput::Failed), (ReceivePhase::Finished, ReceiveAction::Reply(s)) if s == STATUS_REJECTED));
    assert!(matches!(receive_step(ReceivePhase::Admitting, ReceiveInput::Completed { digest_matches: true }), (ReceivePhase::Admitting, ReceiveAction::Nothing)));
}
