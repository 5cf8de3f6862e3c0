use etle::cli::{cli_download_command, event_lines, response_lines, share_line, shares_lines, startup_banner_lines, DownloadOptions};
use etle::ipc::commands::LocalShare;
use etle::config::model::EtleConfig;
use etle::file::descriptor::ShareId;
use etle::ipc::message::{IpcCommand, IpcEvent, IpcResponse, IpcShareSummary};
use etle::net::{IpAddress, Ipv4Address, SocketAddress};

fn summary(mode: Option<&str>, has_secret: bool) -> IpcShareSummary {
    IpcShareSummary {
        share_id: ShareId([0xab; 32]),
        name: "movie.mkv".to_string(),
        completed_chunks: 3,
        total_chunks: 10,
        has_secret,
        mode: mode.map(|m| m.to_string()),
    }
}

#[test]
fn share_lines_name_mode_counts_and_key() {
    let id = "ab".repeat(32);
    assert_eq!(share_line(&summary(Some("seeding"), true)), format!("[library] {id}  seeding  chunks=3/10  key=yes  name=\"movie.mkv\""));
    assert_eq!(share_line(&summary(None, false)), format!("[library] {id}  unknown  chunks=3/10  key=no  name=\"movie.mkv\""));
    assert_eq!(shares_lines(&[]), vec!["[library] no shares found".to_string()]);
    assert_eq!(shares_lines(&[summary(None, true), summary(None, true)]).len(), 2);
}

#[test]
fn responses_are_printed_line_by_line() {
    let id = "ab".repeat(32);
    assert_eq!(response_lines(&IpcResponse::Pong).unwrap(), vec!["[daemon] pong"]);
    assert_eq!(response_lines(&IpcResponse::Ack { message: "ok".to_string() }).unwrap(), vec!["[daemon] ok"]);
    assert_eq!(
        response_lines(&IpcResponse::TransferQueued { share_id: ShareId([0xab; 32]), job_id: "job-1".to_string() }).unwrap(),
        vec![format!("[daemon] transfer queued: {id}"), "[daemon] job_id: job-1".to_string()]
    );
    let completed = IpcResponse::TransferCompleted {
        share_id: ShareId([0xab; 32]),
        output: "/out/movie.mkv".to_string(),
        file_name: "movie.mkv".to_string(),
        file_size: 4096,
        chunks: 4,
    };
    assert_eq!(
        response_lines(&completed).unwrap(),
        vec![
            "[daemon] transfer completed".to_string(),
            format!("[daemon] share_id: {id}"),
            "[daemon] output: /out/movie.mkv".to_string(),
            "[daemon] file: movie.mkv".to_string(),
            "[daemon] file size: 4096 bytes".to_string(),
            "[daemon] chunks: 4".to_string(),
        ]
    );
    assert_eq!(response_lines(&IpcResponse::ShareAdded { share: summary(Some("seeding"), true) }).unwrap()[0], "[daemon] share added");
    assert_eq!(response_lines(&IpcResponse::Error { message: "boom".to_string() }).unwrap_err(), "boom");
}

#[test]
fn events_are_printed_and_errors_go_to_stderr() {
    let id = "ab".repeat(32);
    let listen = SocketAddress { ip: IpAddress::V4(Ipv4Address::new(0, 0, 0, 0)), port: 7000 };
    assert_eq!(event_lines(&IpcEvent::ServerStarted { listen }), (vec!["[event] server started: 0.0.0.0:7000".to_string()], false));
    let progress = IpcEvent::TransferProgress {
        job_id: None,
        share_id: ShareId([0xab; 32]),
        completed_chunks: 2,
        total_chunks: 8,
        bytes_done: 200,
        total_bytes: 800,
        bytes_per_second: 50,
    };
    assert_eq!(
        event_lines(&progress).0,
        vec![format!("[event] progress: job=unknown share={id} chunks=2/8 bytes=200/800 speed=50 B/s")]
    );
    let chunk = IpcEvent::ChunkCompleted { share_id: ShareId([0xab; 32]), completed_chunks: 1, total_chunks: 2 };
    assert_eq!(event_lines(&chunk).0, vec![format!("[event] chunk completed: {id} chunks=1/2")]);
    assert_eq!(event_lines(&IpcEvent::Error { message: "bad".to_string() }), (vec!["[event] error: bad".to_string()], true));
    let done = IpcEvent::TransferCompleted { job_id: Some("j".to_string()), share_id: ShareId([0xab; 32]), output: "/o".to_string() };
    assert_eq!(event_lines(&done).0, vec![format!("[event] transfer completed: job=j share={id} output=/o")]);
}

#[test]
fn download_options_fall_back_to_the_configuration() {
    let mut config = EtleConfig::default();
    config.request_window = Some(32);
    config.auth_psk = Some("from-config".to_string());
    let options = |no_resume: bool, auth_psk: Option<&str>| DownloadOptions {
        peers: Vec::new(),
        share_id: ShareId([1; 32]),
        output: None,
        no_resume,
        parallel: Some(2),
        request_window: None,
        auth_psk: auth_psk.map(|k| k.to_string()),
        discovery_port: None,
        discovery_timeout_ms: None,
        discovery_multicast: None,
    };
    match cli_download_command(options(false, None), &config, Some("from-env".to_string())) {
        IpcCommand::Download { parallelism, request_window, discovery_port, discovery_timeout_ms, discovery_multicast, auth_psk, .. } => {
            assert_eq!(parallelism, 2);
            assert_eq!(request_window, 32);
            assert_eq!(discovery_port, 37037);
            assert_eq!(discovery_timeout_ms, 3000);
            assert_eq!(discovery_multicast, Ipv4Address::new(239, 255, 0, 86));
            assert_eq!(auth_psk.as_deref(), Some("from-env"));
        }
        _ => panic!("expected a resumable download"),
    }
    match cli_download_command(options(true, None), &config, None) {
        IpcCommand::DownloadFresh { auth_psk, .. } => assert_eq!(auth_psk.as_deref(), Some("from-config")),
        _ => panic!("expected a fresh download"),
    }
    match cli_download_command(options(true, Some("given")), &config, Some("from-env".to_string())) {
        IpcCommand::DownloadFresh { auth_psk, .. } => assert_eq!(auth_psk.as_deref(), Some("given")),
        _ => panic!("expected a fresh download"),
    }
}

#[test]
fn daemon_banner_lists_its_shares() {
    let listen = SocketAddress { ip: IpAddress::V4(Ipv4Address::new(0, 0, 0, 0)), port: 7000 };
    let empty = startup_banner_lines("/lib", listen, &[]);
    assert_eq!(
        empty,
        vec![
            "[daemon] etled starting",
            "[daemon] listen address: 0.0.0.0:7000",
            "[daemon] library root: /lib",
            "[daemon] mode: foreground; press Ctrl+C to stop",
            "[daemon] peers must request a share_id with RequestShare",
            "[daemon] no local shares found yet",
        ]
    );
    let share = LocalShare { share_id: ShareId([0xab; 32]), name: "m".to_string(), completed_chunks: 1, total_chunks: 2, has_secret: false, mode: None };
    let lines = startup_banner_lines("/lib", listen, &[share]);
    assert_eq!(lines[5], "[daemon] loaded 1 local share(s)");
    assert_eq!(lines[6], format!("[daemon] share {}  chunks=1/2  key=no  name=\"m\"", "ab".repeat(32)));
}
