//! Where the daemon's IPC endpoint is.

use vstd::prelude::*;

use crate::path::{adjoined, lemma_adjoined_no_prefix, no_verbatim_prefix, path_join, relative_part};

verus! {

/// The directory of the library's own state under its root.
pub const ETLE_DIR_NAME: &'static str = ".etle";
/// The file name of the daemon's Unix socket.
pub const DEFAULT_IPC_SOCKET_FILE_NAME: &'static str = "etled.sock";
/// The name of the daemon's Windows named pipe.
pub const DEFAULT_WINDOWS_PIPE_NAME: &'static str = "\\\\.\\pipe\\etled";

/// The daemon's socket under a library root: `.etle/etled.sock` there.
pub fn default_ipc_socket_path(library_root: &str) -> (r: String)
    ensures
        no_verbatim_prefix(library_root@) ==> exists|dir: Seq<char>|
            adjoined(library_root@, ETLE_DIR_NAME@, dir) && adjoined(dir, DEFAULT_IPC_SOCKET_FILE_NAME@, r@),
{
    proof {
        reveal_strlit(".etle");
        reveal_strlit("etled.sock");
        assert(relative_part(ETLE_DIR_NAME@));
        assert(relative_part(DEFAULT_IPC_SOCKET_FILE_NAME@));
        assert(ETLE_DIR_NAME@[0] != '?');
    }
    let dir = path_join(library_root, ETLE_DIR_NAME);
    let r = path_join(dir.as_str(), DEFAULT_IPC_SOCKET_FILE_NAME);
    proof {
        if no_verbatim_prefix(library_root@) {
            lemma_adjoined_no_prefix(library_root@, ETLE_DIR_NAME@, dir@);
            assert(adjoined(library_root@, ETLE_DIR_NAME@, dir@));
        }
    }
    r
}

/// The daemon's Windows named pipe, `\\.\pipe\etled`.
pub fn default_windows_pipe_name() -> (r: &'static str)
    ensures
        r@ == DEFAULT_WINDOWS_PIPE_NAME@,
{
    DEFAULT_WINDOWS_PIPE_NAME
}

} // verus!
