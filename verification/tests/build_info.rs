use etle::build_info::{args_request_version, long_version, short_commit, version_abi_string, BuildInfo};

fn info(dirty: &str) -> BuildInfo {
    BuildInfo {
        version: "0.1.0".to_string(),
        git_commit: "0123456789abcdef".to_string(),
        git_branch: "main".to_string(),
        git_tag: "v0.1.0".to_string(),
        git_commit_count: "42".to_string(),
        git_commit_message: "fix things".to_string(),
        git_dirty: dirty.to_string(),
        build_date: "2024-01-02".to_string(),
        build_profile: "release".to_string(),
        build_target: "x86_64-unknown-linux-gnu".to_string(),
        build_host: "builder".to_string(),
        rustc_version: "rustc 1.80.0".to_string(),
        build_ci: "false".to_string(),
        build_repository: "local".to_string(),
        build_run_id: "none".to_string(),
        wire_protocol_version: "3".to_string(),
        capability_raw_chunk_frame: "raw-chunk-frame".to_string(),
        capability_windowed_requests: "windowed-requests".to_string(),
    }
}

fn args(list: &[&str]) -> Vec<String> {
    list.iter().map(|s| s.to_string()).collect()
}

#[test]
fn version_flags_are_recognised() {
    assert!(args_request_version(args(&["--version"])));
    assert!(args_request_version(args(&["-v", "-V", "--verbose"])));
    assert!(args_request_version(args(&["build-info"])));
    assert!(args_request_version(args(&["--build-info"])));
    assert!(args_request_version(args(&["version"])));
    assert!(!args_request_version(args(&[])));
    assert!(!args_request_version(args(&["-v"])));
    assert!(!args_request_version(args(&["--version", "seed"])));
    assert!(!args_request_version(args(&["seed"])));
}

#[test]
fn abi_string_marks_dirty_trees() {
    assert_eq!(version_abi_string(&info("clean")), "0123456_wire3_desc1");
    assert_eq!(version_abi_string(&info("dirty")), "0123456_dirty_wire3_desc1");
    assert_eq!(short_commit("abc"), "abc");
    assert_eq!(short_commit("abcdefgh"), "abcdefg");
}

#[test]
fn long_version_lists_build() {
    let text = long_version("etled", &info("clean"));
    let expected = "etled 0.1.0 built from branch main at commit 0123456789abcdef clean (fix things).\n\
                    Date: 2024-01-02\n\
                    Tag: v0.1.0, commits: 42\n\n\
                    Build:\n\
                    Profile: release\n\
                    Target: x86_64-unknown-linux-gnu\n\
                    Host: builder\n\
                    Rustc: rustc 1.80.0\n\
                    CI: false\n\
                    Repository: local\n\
                    Run ID: none\n\n\
                    Protocol:\n\
                    Wire protocol: 3\n\
                    Descriptor format: 1\n\
                    Capabilities: raw-chunk-frame, windowed-requests\n\n\
                    Version ABI string: 0123456_wire3_desc1\n";
    assert_eq!(text, expected);
}
