use etle::file::descriptor::ShareId;
use etle::gui::activity::ActivityLog;
use etle::gui::client::{EtleGui, GuiInit, LatestProgress};
use etle::gui::model::{GuiTransfer, IpcRequestKind, TransferKind, TransferStatus};
use etle::gui::update::{AppInput, GuiAction};
use etle::gui::view::{library_signature, seed_signature, short_phase, transfer_badge, transfer_signature};
use etle::ipc::message::{IpcCommand, IpcEvent, IpcResponse, IpcShareSummary};
use etle::net::{IpAddress, Ipv4Address, SocketAddress};

const T: &str = "12:00:00";

fn init(socket: &str) -> GuiInit {
    GuiInit {
        socket_path: socket.to_string(),
        auth_psk: String::new(),
        download_parallelism: 4,
        request_window: 64,
        discovery_port: 37037,
        discovery_timeout_ms: 1500,
        discovery_multicast: Ipv4Address::new(239, 255, 0, 86),
        startup_warning: None,
    }
}

fn client() -> EtleGui {
    EtleGui::new(init("/tmp/etle.sock"), T)
}

fn share(byte: u8, name: &str, done: usize, total: usize, mode: Option<&str>) -> IpcShareSummary {
    IpcShareSummary {
        share_id: ShareId([byte; 32]),
        name: name.to_string(),
        completed_chunks: done,
        total_chunks: total,
        has_secret: true,
        mode: mode.map(|m| m.to_string()),
    }
}

fn card(id: &str, kind: TransferKind, label: &str, share_id: Option<ShareId>, status: TransferStatus, seq: u64) -> GuiTransfer {
    GuiTransfer {
        id: id.to_string(),
        kind,
        label: label.to_string(),
        share_id,
        status,
        completed_chunks: 0,
        total_chunks: 0,
        bytes_done: 0,
        total_bytes: 0,
        bytes_per_second: 0,
        detail: String::new(),
        updated_seq: seq,
    }
}

fn respond(gui: &mut EtleGui, kind: IpcRequestKind, result: Result<IpcResponse, String>) -> Vec<GuiAction> {
    let socket_path = gui.active_socket_path.clone();
    gui.update(AppInput::IpcResponse { socket_path, kind, result }, T)
}

fn event(gui: &mut EtleGui, event: IpcEvent) -> Vec<GuiAction> {
    let generation = gui.watch_generation;
    gui.update(AppInput::IpcEvent { generation, event }, T)
}

#[test]
fn client_starts_offline_and_logs_its_warning() {
    let gui = client();
    assert!(!gui.connected);
    assert_eq!(gui.status, "offline");
    assert!(matches!(gui.latest, LatestProgress::Idle));
    assert!(gui.activity.lines.is_empty());
    assert_eq!(gui.board.next_transfer_seq, 1);

    let mut warned = init("/tmp/etle.sock");
    warned.startup_warning = Some("config:   failed\tto load".to_string());
    let gui = EtleGui::new(warned, T);
    assert_eq!(gui.activity.lines, vec!["12:00:00  config: failed to load".to_string()]);
}

#[test]
fn activity_log_drops_repeats_and_keeps_the_newest() {
    let mut log = ActivityLog::new(20);
    log.push("a  b", "t1");
    log.push("a b", "t2");
    assert_eq!(log.lines, vec!["t1  a b".to_string()]);
    for i in 0..30 {
        log.push(&format!("line {i}"), "t");
    }
    assert_eq!(log.lines.len(), 20);
    assert_eq!(log.lines[19], "t  line 29");
    log.set_limit(5);
    assert_eq!(log.limit, 20);
    log.set_limit(25);
    assert_eq!(log.limit, 25);
    log.clear();
    assert!(log.lines.is_empty());
    assert_eq!(log.last_message, None);
}

#[test]
fn connect_pings_the_daemon() {
    let mut gui = client();
    let actions = gui.update(AppInput::Connect, T);
    assert_eq!(gui.status, "checking");
    assert!(matches!(&actions[..], [GuiAction::Send { socket_path, kind: IpcRequestKind::Ping, command: IpcCommand::Ping }] if socket_path == "/tmp/etle.sock"));

    let mut empty = EtleGui::new(init("  "), T);
    let actions = empty.update(AppInput::Connect, T);
    assert!(actions.is_empty());
    assert_eq!(empty.status, "offline");
    assert_eq!(empty.activity.lines.last().unwrap(), "12:00:00  ipc: empty socket path");
}

#[test]
fn applying_a_new_socket_resets_the_connection() {
    let mut gui = client();
    gui.shares.push(share(1, "a", 1, 1, None));
    gui.connected = true;
    let actions = gui.update(AppInput::ApplySocketText("  /run/other.sock ".to_string()), T);
    assert_eq!(gui.active_socket_path, "/run/other.sock");
    assert_eq!(gui.watch_generation, 1);
    assert!(!gui.connected);
    assert!(gui.shares.is_empty());
    assert_eq!(actions.len(), 3);
    assert!(matches!(actions[0], GuiAction::Input(AppInput::Connect)));
    assert!(matches!(actions[1], GuiAction::Input(AppInput::Refresh)));
    assert!(matches!(actions[2], GuiAction::Input(AppInput::StartWatch)));

    let actions = gui.update(AppInput::ApplySocketText("   ".to_string()), T);
    assert!(actions.is_empty());
    assert_eq!(gui.activity.lines.last().unwrap(), "12:00:00  socket: empty path ignored");
}

#[test]
fn refresh_is_sent_once_and_when_due() {
    let mut gui = client();
    assert!(!gui.refresh_due(1));
    assert!(gui.refresh_due(2));
    let actions = gui.update(AppInput::AutoRefreshTick { elapsed_secs: 5 }, T);
    assert!(matches!(&actions[..], [GuiAction::Send { kind: IpcRequestKind::ListShares, .. }]));
    assert!(gui.refresh_inflight);
    assert!(gui.update(AppInput::Refresh, T).is_empty());

    let actions = respond(&mut gui, IpcRequestKind::ListShares, Err("timed out".to_string()));
    assert!(actions.is_empty());
    assert!(!gui.refresh_inflight);
    assert_eq!(gui.status, "refresh delayed");
    assert_eq!(gui.activity.lines.last().unwrap(), "12:00:00  refresh: timed out");
}

#[test]
fn watch_subscribes_once_per_generation() {
    let mut gui = client();
    let actions = gui.update(AppInput::StartWatch, T);
    assert!(matches!(&actions[..], [GuiAction::Watch { generation: 1, .. }]));
    assert!(gui.watching);
    assert!(gui.update(AppInput::StartWatch, T).is_empty());
    assert_eq!(gui.activity.lines.last().unwrap(), "12:00:00  watch already active");

    gui.update(AppInput::IpcWatchStopped { generation: 0, error: "old".to_string() }, T);
    assert!(gui.watching);
    gui.update(AppInput::IpcWatchStopped { generation: 1, error: "closed".to_string() }, T);
    assert!(!gui.watching);
    assert_eq!(gui.activity.lines.last().unwrap(), "12:00:00  watch stopped: closed");
}

#[test]
fn pong_brings_the_client_online() {
    let mut gui = client();
    respond(&mut gui, IpcRequestKind::Ping, Ok(IpcResponse::Pong));
    assert!(gui.connected);
    assert_eq!(gui.status, "online");
    assert_eq!(gui.activity.lines.last().unwrap(), "12:00:00  daemon: pong");

    let other = "/elsewhere".to_string();
    gui.update(AppInput::IpcResponse { socket_path: other, kind: IpcRequestKind::Ping, result: Err("x".to_string()) }, T);
    assert!(gui.connected);

    respond(&mut gui, IpcRequestKind::Ping, Err("refused".to_string()));
    assert!(!gui.connected);
    assert_eq!(gui.status, "offline");
}

#[test]
fn share_list_adds_cards_for_downloads_in_progress() {
    let mut gui = client();
    gui.selected_share = Some(5);
    let shares = vec![share(1, "done.bin", 4, 4, Some("seeding")), share(2, "part.bin", 1, 4, Some("downloading"))];
    respond(&mut gui, IpcRequestKind::ListShares, Ok(IpcResponse::Shares { shares }));
    assert_eq!(gui.status, "idle");
    assert_eq!(gui.selected_share, None);
    assert_eq!(gui.board.transfers.len(), 1);
    let t = &gui.board.transfers[0];
    assert_eq!(t.id, format!("library:{}:downloading", "02".repeat(32)));
    assert_eq!(t.label, "part.bin");
    assert_eq!(t.status, TransferStatus::Running);
    assert_eq!(t.detail, "waiting for live progress");
    assert_eq!(gui.board.next_transfer_seq, 3);
}

#[test]
fn added_share_completes_its_seed() {
    let mut gui = client();
    gui.board.transfers.push(card("seed:movie.mkv:1", TransferKind::Seed, "movie.mkv", None, TransferStatus::Running, 1));
    gui.board.next_transfer_seq = 2;
    respond(&mut gui, IpcRequestKind::Seed, Ok(IpcResponse::ShareAdded { share: share(9, "movie.mkv", 3, 3, Some("seeding")) }));
    let t = &gui.board.transfers[0];
    assert_eq!(t.status, TransferStatus::Done);
    assert_eq!(t.share_id, Some(ShareId([9; 32])));
    assert_eq!(t.detail, "encrypted and stored");
    assert_eq!(t.updated_seq, 2);
    assert_eq!(gui.shares.len(), 1);
    assert_eq!(gui.activity.lines.last().unwrap(), &format!("12:00:00  share added: {} movie.mkv", "09".repeat(32)));
}

#[test]
fn queued_transfer_takes_the_job_id() {
    let mut gui = client();
    let id = ShareId([7; 32]);
    gui.board.transfers.push(card("download:x", TransferKind::Download, "x", Some(id), TransferStatus::Queued, 1));
    respond(&mut gui, IpcRequestKind::Download, Ok(IpcResponse::TransferQueued { share_id: id, job_id: "job-9".to_string() }));
    let t = &gui.board.transfers[0];
    assert_eq!(t.id, "job-9");
    assert_eq!(t.status, TransferStatus::Running);
    assert_eq!(t.detail, "downloading");
    assert_eq!(gui.activity.lines.last().unwrap(), &format!("12:00:00  queued: job=job-9 share={}", "07".repeat(32)));

    let other = ShareId([8; 32]);
    respond(&mut gui, IpcRequestKind::Download, Ok(IpcResponse::TransferQueued { share_id: other, job_id: "job-10".to_string() }));
    assert_eq!(gui.board.transfers.len(), 2);
    assert_eq!(gui.board.transfers[0].id, "job-10");
    assert_eq!(gui.board.transfers[0].label, "08".repeat(32));
}

#[test]
fn completed_transfer_without_card_is_reported() {
    let mut gui = client();
    let id = ShareId([3; 32]);
    respond(
        &mut gui,
        IpcRequestKind::Download,
        Ok(IpcResponse::TransferCompleted {
            share_id: id,
            output: "/out/a.bin".to_string(),
            file_name: "a.bin".to_string(),
            file_size: 2048,
            chunks: 2,
        }),
    );
    match &gui.latest {
        LatestProgress::Saved { file_name, file_size, chunks, output } => {
            assert_eq!(file_name, "a.bin");
            assert_eq!(*file_size, 2048);
            assert_eq!(*chunks, 2);
            assert_eq!(output, "/out/a.bin");
        }
        _ => panic!("expected a saved note"),
    }
}

#[test]
fn failed_request_fails_the_latest_running_card() {
    let mut gui = client();
    gui.board.transfers.push(card("a", TransferKind::Seed, "a", None, TransferStatus::Running, 1));
    gui.board.transfers.push(card("b", TransferKind::Seed, "b", None, TransferStatus::Running, 2));
    respond(&mut gui, IpcRequestKind::Seed, Ok(IpcResponse::Error { message: "no  such\tfile".to_string() }));
    let b = gui.board.transfers.iter().find(|t| t.id == "b").unwrap();
    assert_eq!(b.status, TransferStatus::Failed);
    assert_eq!(b.detail, "no such file");
    assert_eq!(gui.activity.lines.last().unwrap(), "12:00:00  daemon error: no such file");

    respond(&mut gui, IpcRequestKind::Download, Err("broken pipe".to_string()));
    assert_eq!(gui.status, "request failed");
    assert_eq!(gui.activity.lines.last().unwrap(), "12:00:00  download request failed: broken pipe");
    assert!(gui.board.transfers.iter().all(|t| t.status == TransferStatus::Failed));
}

#[test]
fn events_update_chunks_and_progress() {
    let mut gui = client();
    let id = ShareId([5; 32]);
    event(&mut gui, IpcEvent::ChunkCompleted { share_id: id, completed_chunks: 3, total_chunks: 10 });
    match &gui.latest {
        LatestProgress::Note { text, done, total } => {
            assert_eq!(text, &format!("chunk: {} 3/10", "05".repeat(32)));
            assert_eq!((*done, *total), (3, 10));
        }
        _ => panic!("expected a note"),
    }

    gui.shares.push(share(5, "film.mkv", 0, 10, Some("downloading")));
    event(
        &mut gui,
        IpcEvent::TransferProgress {
            job_id: None,
            share_id: id,
            completed_chunks: 4,
            total_chunks: 10,
            bytes_done: 400,
            total_bytes: 1000,
            bytes_per_second: 100,
        },
    );
    let t = &gui.board.transfers[0];
    assert_eq!(t.id, format!("download:{}", "05".repeat(32)));
    assert_eq!(t.label, "film.mkv");
    assert_eq!(t.detail, "receiving + verifying");
    assert!(matches!(&gui.latest, LatestProgress::Card(c) if c.bytes_done == 400));

    event(&mut gui, IpcEvent::ChunkCompleted { share_id: id, completed_chunks: 5, total_chunks: 10 });
    assert_eq!(gui.board.transfers[0].completed_chunks, 5);
    assert_eq!(gui.board.transfers[0].detail, "chunk verified");

    let actions = event(&mut gui, IpcEvent::TransferCompleted { job_id: None, share_id: id, output: "/out/film.mkv".to_string() });
    assert!(matches!(&actions[..], [GuiAction::LogLatest]));
    let t = &gui.board.transfers[0];
    assert_eq!(t.status, TransferStatus::Done);
    assert_eq!(t.detail, "saved \u{b7} /out/film.mkv");
    assert_eq!(t.total_chunks, 10);
}

#[test]
fn task_progress_event_makes_a_card() {
    let mut gui = client();
    event(
        &mut gui,
        IpcEvent::TaskProgress {
            job_id: Some("job-1".to_string()),
            task: "seed:staged+encrypted".to_string(),
            label: "/data/movie.mkv".to_string(),
            completed_chunks: 2,
            total_chunks: 2,
            bytes_done: 10,
            total_bytes: 10,
            bytes_per_second: 0,
        },
    );
    let t = &gui.board.transfers[0];
    assert_eq!(t.id, "job-1");
    assert_eq!(t.kind, TransferKind::Seed);
    assert_eq!(t.label, "movie.mkv");
    assert_eq!(t.status, TransferStatus::Done);
    assert_eq!(t.detail, "encrypting + staging");
}

#[test]
fn other_events_are_logged() {
    let mut gui = client();
    let mut bytes = [0_u8; 32];
    for (i, b) in bytes.iter_mut().enumerate() {
        *b = (i * 9) as u8;
    }
    event(&mut gui, IpcEvent::ShareDeleted { share_id: ShareId(bytes) });
    let expected = format!("ShareDeleted {{ share_id: ShareId({bytes:?}) }}");
    assert_eq!(gui.activity.lines.last().unwrap(), &format!("12:00:00  event: {expected}"));

    let listen = SocketAddress { ip: IpAddress::V4(Ipv4Address::new(0, 0, 0, 0)), port: 7000 };
    event(&mut gui, IpcEvent::ServerStarted { listen });
    assert!(gui.connected);
    assert_eq!(gui.activity.lines.last().unwrap(), "12:00:00  server started: 0.0.0.0:7000");
    event(&mut gui, IpcEvent::PeerConnected { peer_id: "peer-1".to_string() });
    assert_eq!(gui.activity.lines.last().unwrap(), "12:00:00  peer connected: peer-1");

    gui.watch_generation = 4;
    gui.update(AppInput::IpcEvent { generation: 3, event: IpcEvent::ServerStopped }, T);
    assert!(gui.connected);
}

#[test]
fn seed_queue_adds_removes_and_starts() {
    let mut gui = client();
    gui.update(AppInput::AddSeedPathText("  /data/a.bin ".to_string()), T);
    gui.update(AppInput::AddSeedFile("/data/a.bin".to_string()), T);
    gui.update(AppInput::AddSeedFile("/data/b.bin".to_string()), T);
    gui.update(AppInput::AddSeedFile(String::new()), T);
    assert_eq!(gui.seed_files, vec!["/data/a.bin".to_string(), "/data/b.bin".to_string()]);
    assert_eq!(gui.selected_seed_file, Some(0));
    assert!(gui.activity.lines.iter().any(|l| l == "12:00:00  seed queue: already added /data/a.bin"));

    gui.update(AppInput::SelectSeedFile(1), T);
    gui.update(AppInput::RemoveSelectedSeedFile, T);
    assert_eq!(gui.seed_files, vec!["/data/a.bin".to_string()]);
    assert_eq!(gui.selected_seed_file, Some(0));

    gui.update(AppInput::SetSeedChunkSize(0), T);
    let actions = gui.update(AppInput::StartSeedSelected, T);
    assert!(gui.seed_files.is_empty());
    assert_eq!(gui.selected_seed_file, None);
    match &actions[..] {
        [GuiAction::Send { kind: IpcRequestKind::Seed, command: IpcCommand::SeedFile { input, chunk_size }, .. }] => {
            assert_eq!(input, "/data/a.bin");
            assert_eq!(*chunk_size, 1);
        }
        _ => panic!("expected a seed request"),
    }
    let t = &gui.board.transfers[0];
    assert_eq!(t.id, "seed:a.bin:1");
    assert_eq!(t.detail, "encrypting \u{b7} /data/a.bin");
    assert_eq!(gui.activity.lines, vec!["12:00:00  seed queued: /data/a.bin".to_string()]);

    assert!(gui.update(AppInput::StartSeedSelected, T).is_empty());
    assert_eq!(gui.activity.lines.last().unwrap(), "12:00:00  seed: add a file first");
}

#[test]
fn download_form_queues_a_download() {
    let mut gui = client();
    let id = "cd".repeat(32);
    let actions = gui.update(
        AppInput::StartDownloadFromForm {
            share_id: id.clone(),
            peers: "127.0.0.1:7000".to_string(),
            output: String::new(),
            auth_psk: String::new(),
            discovery_multicast: "239.1.2.3".to_string(),
        },
        T,
    );
    assert_eq!(gui.discovery_multicast, Ipv4Address::new(239, 1, 2, 3));
    assert_eq!(gui.download_share_id, id);
    match &actions[..] {
        [GuiAction::Send { kind: IpcRequestKind::Download, command: IpcCommand::Download { share_id, peers, parallelism, .. }, .. }] => {
            assert_eq!(*share_id, ShareId([0xcd; 32]));
            assert_eq!(peers.len(), 1);
            assert_eq!(*parallelism, 4);
        }
        _ => panic!("expected a download request"),
    }
    let t = &gui.board.transfers[0];
    assert_eq!(t.id, format!("download:{id}"));
    assert_eq!(t.status, TransferStatus::Queued);
    assert_eq!(t.detail, "waiting for daemon");

    let actions = gui.update(
        AppInput::StartDownloadFromForm {
            share_id: "zz".to_string(),
            peers: String::new(),
            output: String::new(),
            auth_psk: String::new(),
            discovery_multicast: "239.1.2.3".to_string(),
        },
        T,
    );
    assert!(actions.is_empty());
    assert_eq!(gui.activity.lines.last().unwrap(), "12:00:00  download: invalid share id");
}

#[test]
fn settings_inputs_keep_their_floors() {
    let mut gui = client();
    gui.update(AppInput::SetRequestWindow(0), T);
    gui.update(AppInput::SetDiscoveryPort(0), T);
    gui.update(AppInput::SetDiscoveryTimeout(0), T);
    gui.update(AppInput::SetRefreshInterval(0), T);
    gui.update(AppInput::SetActivityLimit(3), T);
    gui.update(AppInput::SetResume(false), T);
    assert_eq!(gui.settings.download_request_window, 1);
    assert_eq!(gui.settings.discovery_port, 1);
    assert_eq!(gui.settings.discovery_timeout_ms, 1);
    assert_eq!(gui.refresh_interval_secs, 1);
    assert_eq!(gui.activity.limit, 20);
    assert!(!gui.settings.resume);

    gui.shares.push(share(4, "x", 0, 0, None));
    gui.update(AppInput::SelectShare(0), T);
    let actions = gui.update(AppInput::CopySelectedShareId, T);
    assert!(matches!(&actions[..], [GuiAction::CopyShareId(t)] if *t == "04".repeat(32)));
    gui.board.transfers.push(card("done", TransferKind::Seed, "d", None, TransferStatus::Done, 1));
    gui.update(AppInput::ClearFinishedTransfers, T);
    assert!(gui.board.transfers.is_empty());
    assert!(matches!(gui.latest, LatestProgress::Idle));
}

#[test]
fn list_signatures_and_badges() {
    assert_eq!(seed_signature(&["a".to_string(), "b".to_string()]), "a\nb");
    assert_eq!(seed_signature(&[]), "");
    let id = "01".repeat(32);
    assert_eq!(
        library_signature(&[share(1, "x.bin", 3, 10, Some("seeding")), share(1, "y", 0, 0, None)]),
        format!("{id}:x.bin:seeding:3:10:true\n{id}:y::0:0:true")
    );
    let mut t = card("job", TransferKind::Download, "film", Some(ShareId([1; 32])), TransferStatus::Running, 7);
    t.completed_chunks = 1;
    t.total_chunks = 2;
    t.bytes_done = 3;
    t.total_bytes = 4;
    t.bytes_per_second = 5;
    t.detail = "receiving + verifying".to_string();
    assert_eq!(transfer_signature(std::slice::from_ref(&t)), format!("job:download:film:running:{id}:1:2:3:4:5:receiving + verifying"));
    assert_eq!(short_phase("decrypting + writing"), "decrypt");
    assert_eq!(short_phase("queued"), "running");
    assert_eq!(transfer_badge(&t), "\u{21bb} receive");
    t.status = TransferStatus::Done;
    assert_eq!(transfer_badge(&t), "\u{2713} done");
}

#[test]
fn status_line_says_what_the_client_knows() {
    let mut gui = client();
    assert_eq!(gui.status_line(), "offline \u{b7} 0 share(s)");
    gui.status = "checking".to_string();
    assert_eq!(gui.status_line(), "offline \u{b7} 0 share(s) \u{b7} checking");
    gui.status = "3 share(s)".to_string();
    gui.connected = true;
    gui.watching = true;
    gui.shares.push(share(1, "a", 0, 0, None));
    assert_eq!(gui.status_line(), "online \u{b7} 1 share(s) \u{b7} events on");
    gui.activity.push("one", "t");
    gui.activity.push("two", "t");
    assert_eq!(gui.activity_text(), "t  one\nt  two");
}

#[test]
fn seed_queue_compares_paths_by_component() {
    let mut gui = client();
    gui.update(AppInput::AddSeedFile("/data/a.bin".to_string()), T);
    gui.update(AppInput::AddSeedFile("/data//a.bin".to_string()), T);
    assert_eq!(gui.seed_files.len(), 1);
    assert_eq!(gui.activity.lines.last().unwrap(), "12:00:00  seed queue: already added /data//a.bin");
}
