use etle::file::descriptor::ShareId;
use etle::gui::format::{compact_log_line, file_label, non_empty, time_of_day, trim_path_label};
use etle::gui::model::{
    friendly_task_detail, is_specific_progress_detail, parse_peers, share_is_complete, transfer_hidden_keys, DownloadSettings,
    GuiTransfer, IpcRequestKind, TransferKind, TransferStatus,
};
use etle::gui::progress::parse_task_progress_debug;
use etle::ipc::message::{IpcCommand, IpcShareSummary};
use etle::net::{IpAddress, Ipv4Address, SocketAddress};

#[test]
fn labels() {
    assert_eq!(TransferKind::Seed.label(), "seed");
    assert_eq!(TransferKind::Download.label(), "download");
    assert_eq!(TransferStatus::Running.label(), "running");
    assert_eq!(TransferStatus::Done.icon(), "\u{2713}");
    assert_eq!(TransferStatus::Queued.icon(), "\u{2026}");
    assert!(TransferStatus::Failed.is_finished());
    assert!(!TransferStatus::Queued.is_finished());
    assert_eq!(IpcRequestKind::ListShares.label(), "refresh");
}

#[test]
fn text_formatting() {
    assert_eq!(non_empty("  hi  "), Some("hi"));
    assert_eq!(non_empty(" \t\n"), None);
    assert_eq!(compact_log_line("  a   b\n\tc  "), "a b c");
    assert_eq!(compact_log_line(""), "");
    assert_eq!(time_of_day(86400 + 3 * 3600 + 4 * 60 + 5), "03:04:05");
    assert_eq!(time_of_day(0), "00:00:00");
    assert_eq!(file_label("/a/b/c.txt"), "c.txt");
    assert_eq!(file_label("/"), "/");
    assert_eq!(trim_path_label("/x/y"), "y");
}

#[test]
fn task_progress_is_read_from_debug_text() {
    let text = r#"TaskProgress { job_id: Some("job-1"), task: "peer:received+verified", label: "movie.mkv", completed_chunks: 3, total_chunks: 10, bytes_done: 300, total_bytes: 1000, bytes_per_second: 50 }"#;
    let progress = parse_task_progress_debug(text).unwrap();

    assert_eq!(progress.job_id.as_deref(), Some("job-1"));
    assert_eq!(progress.task, "peer:received+verified");
    assert_eq!(progress.label, "movie.mkv");
    assert_eq!(progress.completed_chunks, 3);
    assert_eq!(progress.total_chunks, 10);
    assert_eq!(progress.bytes_done, 300);
    assert_eq!(progress.total_bytes, 1000);
    assert_eq!(progress.bytes_per_second, 50);
}

#[test]
fn task_progress_defaults_and_fallbacks() {
    assert!(parse_task_progress_debug("ChunkCompleted { }").is_none());
    let progress = parse_task_progress_debug(r#"TaskProgress { job_id: None, stage: "seed", chunks_done: 2, speed: 9 }"#).unwrap();

    assert_eq!(progress.job_id, None);
    assert_eq!(progress.task, "seed");
    assert_eq!(progress.label, "seed");
    assert_eq!(progress.completed_chunks, 2);
    assert_eq!(progress.total_chunks, 0);
    assert_eq!(progress.bytes_per_second, 9);

    let bare = parse_task_progress_debug("TaskProgress").unwrap();
    assert_eq!(bare.task, "task");
    assert_eq!(bare.label, "task");
}

#[test]
fn task_details() {
    assert_eq!(friendly_task_detail("peer:completed"), "completed");
    assert_eq!(friendly_task_detail("peer:decrypted+written"), "decrypting + writing");
    assert_eq!(friendly_task_detail("chunk:served-from-library"), "uploading chunks");
    assert_eq!(friendly_task_detail("seed:scan"), "seeding");
    assert_eq!(friendly_task_detail("peer:connect"), "peer \u{b7} connect");
    assert!(is_specific_progress_detail("receiving + verifying"));
    assert!(!is_specific_progress_detail("queued"));
}

#[test]
fn share_completion() {
    let mut share = IpcShareSummary { share_id: ShareId([0_u8; 32]), name: "s".to_string(), completed_chunks: 0, total_chunks: 0, has_secret: true, mode: None };
    assert!(!share_is_complete(&share));
    share.mode = Some("seeding".to_string());
    assert!(share_is_complete(&share));
    share.total_chunks = 4;
    share.completed_chunks = 3;
    assert!(!share_is_complete(&share));
    share.completed_chunks = 4;
    assert!(share_is_complete(&share));
}

#[test]
fn hidden_keys_of_a_transfer() {
    let transfer = GuiTransfer {
        id: "job-1".to_string(),
        kind: TransferKind::Download,
        label: "movie".to_string(),
        share_id: Some(ShareId([0x0f_u8; 32])),
        status: TransferStatus::Done,
        completed_chunks: 1,
        total_chunks: 1,
        bytes_done: 1,
        total_bytes: 1,
        bytes_per_second: 0,
        detail: String::new(),
        updated_seq: 1,
    };
    let share = "0f".repeat(32);

    assert_eq!(
        transfer_hidden_keys(&transfer),
        vec![
            "job-1".to_string(),
            "download:label:movie".to_string(),
            format!("download:done:{share}"),
            format!("download:share:{share}"),
        ]
    );
}

#[test]
fn peers_are_parsed_from_lists() {
    let peers = parse_peers("192.168.1.20:7000, 127.0.0.1:7001\n10.0.0.1:1").unwrap();
    assert_eq!(
        peers,
        vec![
            SocketAddress { ip: IpAddress::V4(Ipv4Address::new(192, 168, 1, 20)), port: 7000 },
            SocketAddress { ip: IpAddress::V4(Ipv4Address::new(127, 0, 0, 1)), port: 7001 },
            SocketAddress { ip: IpAddress::V4(Ipv4Address::new(10, 0, 0, 1)), port: 1 },
        ]
    );
    assert_eq!(parse_peers("  ,, ").unwrap(), Vec::new());
    assert_eq!(parse_peers("1.2.3.4:5, nope").unwrap_err(), "invalid peer `nope`: invalid socket address syntax");
}

#[test]
fn download_command_from_form() {
    let settings = DownloadSettings {
        resume: true,
        download_parallelism: 0,
        download_request_window: 0,
        discovery_port: 37037,
        discovery_timeout_ms: 0,
        auth_psk: "configured".to_string(),
    };
    let id_text = "ab".repeat(32);
    let (command, share_id) = settings.build_download_command_from(&format!("  {id_text} "), "", "  ", "", " 239.255.0.86 ").unwrap();
    assert_eq!(share_id, ShareId([0xab_u8; 32]));
    match command {
        IpcCommand::Download { peers, output, request_window, discovery_timeout_ms, auth_psk, discovery_multicast, .. } => {
            assert!(peers.is_empty());
            assert_eq!(output, None);
            assert_eq!(request_window, 1);
            assert_eq!(discovery_timeout_ms, 1);
            assert_eq!(auth_psk.as_deref(), Some("configured"));
            assert_eq!(discovery_multicast, Ipv4Address::new(239, 255, 0, 86));
        }
        _ => panic!("expected a resumable download"),
    }
    assert_eq!(settings.build_download_command_from("bad", "", "", "", "239.255.0.86").unwrap_err(), "invalid share id");
    assert_eq!(
        settings.build_download_command_from(&id_text, "", "", "", "nope").unwrap_err(),
        "invalid multicast address: invalid IPv4 address syntax"
    );
    let fresh = DownloadSettings { resume: false, ..settings };
    assert!(matches!(fresh.build_download_command_from(&id_text, "", "/out", "k", "239.255.0.86").unwrap().0, IpcCommand::DownloadFresh { .. }));
}
