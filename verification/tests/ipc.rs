use etle::file::descriptor::ShareId;
use etle::file::manifest::Manifest;
use etle::crypto::hash::FileId;
use etle::ipc::codec::{check_decoded_len, decode_frame_len, encode_frame, split_frame, validate_frame_len, MAX_IPC_FRAME_SIZE};
use etle::ipc::commands::{
    copy_file_name, delete_share_lookup, delete_share_outcome, effective_download_parallelism, format_share_mode, handle,
    ipc_share_summary_from_local, job_id, list_shares_response, no_peers_discovered_response, seed_chunk_size,
    temporary_download_file_name, transfer_completed_response, DaemonAction, LocalShare,
};
use etle::ipc::download::{after_discovery, start_download, DownloadStart};
use etle::ipc::error::IpcError;
use etle::ipc::message::{IpcCommand, IpcResponse, IpcShareSummary, ShareMode};
use etle::ipc::path::{default_ipc_socket_path, default_windows_pipe_name};
use etle::net::{IpAddress, Ipv4Address, SocketAddress};

#[test]
fn frame_lengths_are_checked() {
    assert_eq!(validate_frame_len(0), Err(IpcError::EmptyFrame));
    assert_eq!(validate_frame_len(1), Ok(()));
    assert_eq!(validate_frame_len(MAX_IPC_FRAME_SIZE), Ok(()));
    assert_eq!(
        validate_frame_len(MAX_IPC_FRAME_SIZE + 1),
        Err(IpcError::FrameTooLarge { len: MAX_IPC_FRAME_SIZE + 1, max: MAX_IPC_FRAME_SIZE })
    );
    assert_eq!(MAX_IPC_FRAME_SIZE, 4 * 1024 * 1024);
}

#[test]
fn frames_carry_big_endian_length() {
    let frame = encode_frame(b"hello").unwrap();

    assert_eq!(frame, b"\0\0\0\x05hello");
    assert_eq!(decode_frame_len([0, 0, 1, 2]), Ok(258));
    assert_eq!(decode_frame_len([0, 0, 0, 0]), Err(IpcError::EmptyFrame));
    assert!(decode_frame_len([0xff, 0, 0, 0]).is_err());
    assert_eq!(split_frame(&frame).unwrap(), b"hello");
    assert!(encode_frame(b"").is_err());
}

#[test]
fn frame_roundtrip_and_trailing_bytes() {
    let payload = vec![9_u8; 300];
    let frame = encode_frame(&payload).unwrap();
    assert_eq!(&frame[..4], &[0, 0, 1, 44]);
    assert_eq!(split_frame(&frame).unwrap(), payload);

    let mut longer = frame.clone();
    longer.push(1);
    assert!(split_frame(&longer).is_err());
    assert_eq!(check_decoded_len(3, 4), Err(IpcError::TrailingBytes { bytes_read: 3, frame_len: 4 }));
    assert_eq!(check_decoded_len(4, 4), Ok(()));
}

#[test]
fn socket_path_and_pipe_name() {
    assert_eq!(default_ipc_socket_path("/home/u/Downloads/ETLE"), "/home/u/Downloads/ETLE/.etle/etled.sock");
    assert_eq!(default_windows_pipe_name(), r"\\.\pipe\etled");
}

fn ack_text(r: &IpcResponse) -> Option<&str> {
    match r {
        IpcResponse::Ack { message } => Some(message),
        _ => None,
    }
}

fn error_text(r: &IpcResponse) -> Option<&str> {
    match r {
        IpcResponse::Error { message } => Some(message),
        _ => None,
    }
}

#[test]
fn daemon_answers_simple_commands() {
    assert!(matches!(handle(&IpcCommand::Ping), DaemonAction::Reply(IpcResponse::Pong)));
    assert!(matches!(handle(&IpcCommand::ListShares), DaemonAction::ListShares));
    let share = ShareId([1_u8; 32]);
    assert!(matches!(handle(&IpcCommand::DeleteShare { share_id: share }), DaemonAction::DeleteShare(s) if s == share));
    match handle(&IpcCommand::Shutdown) {
        DaemonAction::Reply(r) => assert_eq!(ack_text(&r), Some("daemon shutdown requested")),
        _ => panic!("expected a reply"),
    }
    match handle(&IpcCommand::SeedFile { input: "x".to_string(), chunk_size: 0 }) {
        DaemonAction::Reply(r) => assert_eq!(error_text(&r), Some("seed requires async daemon handling")),
        _ => panic!("expected a reply"),
    }
    match handle(&IpcCommand::Pause { share_id: share }) {
        DaemonAction::Reply(r) => assert_eq!(error_text(&r), Some("pause/resume control is not implemented yet")),
        _ => panic!("expected a reply"),
    }
}

#[test]
fn share_summaries_and_listing() {
    let local = LocalShare {
        share_id: ShareId([2_u8; 32]),
        name: "movie".to_string(),
        completed_chunks: 3,
        total_chunks: 4,
        has_secret: true,
        mode: Some(ShareMode::Downloading),
    };
    let summary = ipc_share_summary_from_local(local);
    assert_eq!(summary.name, "movie");
    assert_eq!(summary.mode.as_deref(), Some("downloading"));
    assert_eq!(format_share_mode(ShareMode::Paused), "paused");

    match list_shares_response(Err("no library".to_string())) {
        IpcResponse::Error { message } => assert_eq!(message, "no library"),
        _ => panic!("expected an error"),
    }
    match list_shares_response(Ok(vec![LocalShare {
        share_id: ShareId([3_u8; 32]),
        name: "a".to_string(),
        completed_chunks: 0,
        total_chunks: 0,
        has_secret: false,
        mode: None,
    }])) {
        IpcResponse::Shares { shares } => {
            assert_eq!(shares.len(), 1);
            assert_eq!(shares[0].name, "a");
            assert_eq!(shares[0].mode, None);
        }
        _ => panic!("expected shares"),
    }
}

#[test]
fn delete_share_answers() {
    let share_id = ShareId([0xab_u8; 32]);
    let missing = delete_share_lookup(share_id, Ok(None)).unwrap_err();
    assert_eq!(error_text(&missing).unwrap(), format!("share {} does not exist in the local library", "ab".repeat(32)));

    let summary = IpcShareSummary { share_id, name: "n".to_string(), completed_chunks: 1, total_chunks: 1, has_secret: true, mode: None };
    let found = delete_share_lookup(share_id, Ok(Some(summary.clone()))).unwrap();
    assert_eq!(found.name, "n");
    assert!(matches!(delete_share_outcome(share_id, summary.clone(), Ok(true)), IpcResponse::ShareDeleted { name, .. } if name == "n"));
    let gone = delete_share_outcome(share_id, summary, Ok(false));
    assert_eq!(error_text(&gone).unwrap(), format!("share {} disappeared before it could be deleted", "ab".repeat(32)));
}

#[test]
fn download_decisions() {
    assert_eq!(effective_download_parallelism(0, 0), 1);
    assert_eq!(effective_download_parallelism(0, 3), 3);
    assert_eq!(effective_download_parallelism(2, 5), 2);
    assert_eq!(seed_chunk_size(0), 1024 * 1024);
    assert_eq!(seed_chunk_size(10), 10);
    let share_id = ShareId([0_u8; 32]);
    assert_eq!(
        error_text(&no_peers_discovered_response(share_id)).unwrap(),
        format!("no peers discovered for share {}; pass --peer manually or ensure etled discovery is enabled on the LAN", "00".repeat(32))
    );
    assert_eq!(job_id("download", share_id, 17, 42), format!("download-{}-17-42", "00".repeat(32)));
    assert_eq!(temporary_download_file_name(42), ".etle-download-daemon-42.part");
    assert_eq!(copy_file_name("movie", Some("mkv"), 2), "movie (2).mkv");
    assert_eq!(copy_file_name("notes", None, 1), "notes (1)");
}

#[test]
fn completed_transfer_answer() {
    let manifest = Manifest {
        file_id: FileId([1_u8; 32]),
        file_name: "a.bin".to_string(),
        file_size: 99,
        chunk_size: 64,
        chunks: Vec::new(),
    };
    match transfer_completed_response(ShareId([1_u8; 32]), "/out/a.bin".to_string(), &manifest) {
        IpcResponse::TransferCompleted { output, file_name, file_size, chunks, .. } => {
            assert_eq!(output, "/out/a.bin");
            assert_eq!(file_name, "a.bin");
            assert_eq!(file_size, 99);
            assert_eq!(chunks, 0);
        }
        _ => panic!("expected completion"),
    }
}

#[test]
fn download_jobs_discover_peers_when_none_is_given() {
    let share = ShareId([2; 32]);
    let peer = SocketAddress { ip: IpAddress::V4(Ipv4Address::new(10, 0, 0, 2)), port: 7000 };
    match start_download(vec![peer, peer], 0, 37037, 0, Ipv4Address::new(239, 255, 0, 86)) {
        DownloadStart::Fetch { peers, workers } => {
            assert_eq!(peers.len(), 2);
            assert_eq!(workers, 2);
        }
        _ => panic!("expected a fetch"),
    }
    match start_download(Vec::new(), 3, 4000, 0, Ipv4Address::new(10, 0, 0, 1)) {
        DownloadStart::Discover { options } => {
            assert_eq!(options.port, 4000);
            assert_eq!(options.timeout_ms, 1);
            assert_eq!(options.multicast, None);
        }
        _ => panic!("expected discovery"),
    }
    let (peers, workers) = after_discovery(share, Ok(vec![peer]), 4).unwrap();
    assert_eq!((peers.len(), workers), (1, 4));
    match after_discovery(share, Ok(Vec::new()), 0) {
        Err(IpcResponse::Error { message }) => assert!(message.starts_with("no peers discovered for share 0202")),
        _ => panic!("expected an error answer"),
    }
    match after_discovery(share, Err("timed out".to_string()), 0) {
        Err(IpcResponse::Error { message }) => assert_eq!(message, "peer discovery failed: timed out"),
        _ => panic!("expected an error answer"),
    }
}
