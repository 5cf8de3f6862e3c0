//! Where the configuration is found, and the default listen address.

use vstd::prelude::*;

use crate::net::{IpAddress, Ipv4Address, SocketAddress};
use crate::path::{adjoined, lemma_adjoined_no_prefix, no_verbatim_prefix, path_join};

verus! {

/// The environment variable that names the configuration file.
pub const ETLE_CONFIG_ENV: &'static str = "ETLE_CONFIG";
/// The directory of the configuration file under the configuration home.
pub const DEFAULT_CONFIG_DIR_NAME: &'static str = "etle";
/// The file name of the configuration file.
pub const DEFAULT_CONFIG_FILE_NAME: &'static str = "config.toml";
/// The configuration home under the home directory.
pub const CONFIG_HOME_DIR_NAME: &'static str = ".config";
/// The default peer-to-peer port.
pub const DEFAULT_P2P_PORT: u16 = 7000;

/// The default peer-to-peer listen address, `0.0.0.0:7000`.
pub open spec fn default_listen_spec() -> SocketAddress {
    SocketAddress { ip: IpAddress::V4(Ipv4Address(0, 0, 0, 0)), port: DEFAULT_P2P_PORT }
}

/// The default peer-to-peer listen address, `0.0.0.0:7000`.
pub fn default_listen_addr() -> (r: SocketAddress)
    ensures
        r == default_listen_spec(),
{
    SocketAddress { ip: IpAddress::V4(Ipv4Address::unspecified()), port: DEFAULT_P2P_PORT }
}

/// `path` is `dir` with the configuration directory and file name adjoined.
pub open spec fn config_file_under(dir: Seq<char>, path: Seq<char>) -> bool {
    exists|d: Seq<char>| adjoined(dir, DEFAULT_CONFIG_DIR_NAME@, d) && adjoined(d, DEFAULT_CONFIG_FILE_NAME@, path)
}

/// `path` is the configuration file under `.config` in the home directory.
pub open spec fn config_file_in_home(home: Seq<char>, path: Seq<char>) -> bool {
    exists|c: Seq<char>| adjoined(home, CONFIG_HOME_DIR_NAME@, c) && config_file_under(c, path)
}

/// The configuration file's path given the environment: `ETLE_CONFIG` when
/// set; else `etle/config.toml` under `XDG_CONFIG_HOME`; else under
/// `$HOME/.config`; none without any of them.
pub fn config_path_from(etle_config: Option<String>, xdg_config_home: Option<String>, home: Option<String>) -> (r: Option<String>)
    ensures
        etle_config matches Some(p) ==> (r matches Some(q) && q@ == p@),
        etle_config is None && xdg_config_home is Some ==> (r matches Some(q)
            && (no_verbatim_prefix(xdg_config_home.unwrap()@) ==> config_file_under(xdg_config_home.unwrap()@, q@))),
        etle_config is None && xdg_config_home is None && home is Some ==> (r matches Some(q)
            && (no_verbatim_prefix(home.unwrap()@) ==> config_file_in_home(home.unwrap()@, q@))),
        etle_config is None && xdg_config_home is None && home is None ==> r is None,
{
    proof {
        reveal_strlit("etle");
        reveal_strlit("config.toml");
        reveal_strlit(".config");
        assert(!crate::path::is_separator('.'));
    }
    if let Some(path) = etle_config {
        return Some(path);
    }
    assert(DEFAULT_CONFIG_DIR_NAME@[0] != '?');
    assert(CONFIG_HOME_DIR_NAME@[0] != '?');
    if let Some(xdg) = xdg_config_home {
        let dir = path_join(xdg.as_str(), DEFAULT_CONFIG_DIR_NAME);
        proof {
            if no_verbatim_prefix(xdg@) {
                lemma_adjoined_no_prefix(xdg@, DEFAULT_CONFIG_DIR_NAME@, dir@);
            }
        }
        return Some(path_join(dir.as_str(), DEFAULT_CONFIG_FILE_NAME));
    }
    match home {
        Some(h) => {
            assert(crate::path::relative_part(CONFIG_HOME_DIR_NAME@));
            let config_home = path_join(h.as_str(), CONFIG_HOME_DIR_NAME);
            let dir = path_join(config_home.as_str(), DEFAULT_CONFIG_DIR_NAME);
            let file = path_join(dir.as_str(), DEFAULT_CONFIG_FILE_NAME);
            proof {
                if no_verbatim_prefix(h@) {
                    lemma_adjoined_no_prefix(h@, CONFIG_HOME_DIR_NAME@, config_home@);
                    lemma_adjoined_no_prefix(config_home@, DEFAULT_CONFIG_DIR_NAME@, dir@);
                    assert(config_file_under(config_home@, file@));
                    assert(adjoined(h@, CONFIG_HOME_DIR_NAME@, config_home@));
                    assert(config_file_in_home(h@, file@));
                }
            }
            Some(file)
        },
        None => None,
    }
}

} // verus!
