# etle

Encrypted, chunked file sharing between peers on a local network, with its
data formats and decisions verified by Verus.

## Layout

- `src/` — the verified library.
  - `crypto/` — BLAKE3 hashes and key derivation, XChaCha20-Poly1305 chunk
    encryption, X25519 key agreement, file-key wrapping.
  - `file/` — chunking and reassembly, share descriptors and their ids,
    manifests, encrypted files and debug workspaces, packages of files.
  - `config/` — the configuration file format and its defaults.
  - `discovery/` — discovery messages, query targets, and the peers found.
  - `ipc/` — IPC framing, messages, the daemon's answers and the decisions of
    a download job.
  - `gui/` — the desktop client's state: its transfer cards, activity log,
    how it follows the daemon's answers and events, and its update step.
  - `cli.rs` — what the command-line client prints and the download command
    it builds.
  - `net.rs`, `net6.rs`, `text.rs`, `bytes.rs`, `path.rs` — addresses and
    their text, text and byte helpers, paths.
- `tests/` — tests of the library.
- `app/` — the `etle` program: argument handling, file and network I/O,
  serialization, and a console shell around the client's state.

Calls into outside crates (BLAKE3, ChaCha20-Poly1305, X25519, the OS random
source, the interface list, `std::path`) go through small trusted wrappers
whose contracts say what those crates document.
