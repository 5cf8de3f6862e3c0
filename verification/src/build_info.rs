//! Build and version information, and the text that reports it.

use vstd::prelude::*;

use crate::bytes::{decimal, decimal_string};
use crate::file::descriptor::ETLE_DESCRIPTOR_VERSION;
use crate::text::str_equal;

verus! {

/// What a build records of itself: the package version, the git state, the
/// build environment, and the protocol versions it speaks.
#[derive(Clone, Debug)]
pub struct BuildInfo {
    pub version: String,
    pub git_commit: String,
    pub git_branch: String,
    pub git_tag: String,
    pub git_commit_count: String,
    pub git_commit_message: String,
    pub git_dirty: String,
    pub build_date: String,
    pub build_profile: String,
    pub build_target: String,
    pub build_host: String,
    pub rustc_version: String,
    pub build_ci: String,
    pub build_repository: String,
    pub build_run_id: String,
    pub wire_protocol_version: String,
    pub capability_raw_chunk_frame: String,
    pub capability_windowed_requests: String,
}

/// The first seven characters of a commit id, or all of a shorter one.
pub open spec fn short_commit_spec(commit: Seq<char>) -> Seq<char> {
    if commit.len() >= 7 { commit.take(7) } else { commit }
}

/// The first seven characters of a commit id, or all of a shorter one.
pub fn short_commit(commit: &str) -> (r: String)
    ensures
        r@ == short_commit_spec(commit@),
{
    let chars = crate::bytes::chars_of(commit);
    if chars.len() >= 7 {
        let mut out: Vec<char> = Vec::new();
        crate::text::extend_chars(&mut out, &chars.as_slice()[0..7]);
        assert(chars@.subrange(0, 7) =~= commit@.take(7));
        crate::bytes::string_from_chars(out.as_slice())
    } else {
        commit.to_string()
    }
}

/// The version ABI string: the short commit, `_dirty` unless the tree was
/// clean, then the wire protocol and descriptor format versions.
pub open spec fn version_abi_spec(info: BuildInfo) -> Seq<char> {
    short_commit_spec(info.git_commit@) + (if info.git_dirty@ == "clean"@ { Seq::empty() } else { "_dirty"@ })
        + "_wire"@ + info.wire_protocol_version@ + "_desc"@ + decimal(ETLE_DESCRIPTOR_VERSION as nat)
}

/// The version ABI string of a build.
pub fn version_abi_string(info: &BuildInfo) -> (r: String)
    ensures
        r@ == version_abi_spec(*info),
{
    let mut s = short_commit(info.git_commit.as_str());
    if !str_equal(info.git_dirty.as_str(), "clean") {
        s.append("_dirty");
    }
    s.append("_wire");
    s.append(info.wire_protocol_version.as_str());
    s.append("_desc");
    s.append(decimal_string(ETLE_DESCRIPTOR_VERSION as u64).as_str());
    proof {
        reveal_strlit("clean");
    }
    s
}

/// The long version text of `binary`.
pub open spec fn long_version_spec(binary: Seq<char>, info: BuildInfo) -> Seq<char> {
    binary + " "@ + info.version@ + " built from branch "@ + info.git_branch@ + " at commit "@ + info.git_commit@
        + " "@ + info.git_dirty@ + " ("@ + info.git_commit_message@ + ").\nDate: "@ + info.build_date@
        + "\nTag: "@ + info.git_tag@ + ", commits: "@ + info.git_commit_count@
        + "\n\nBuild:\nProfile: "@ + info.build_profile@ + "\nTarget: "@ + info.build_target@
        + "\nHost: "@ + info.build_host@ + "\nRustc: "@ + info.rustc_version@ + "\nCI: "@ + info.build_ci@
        + "\nRepository: "@ + info.build_repository@ + "\nRun ID: "@ + info.build_run_id@
        + "\n\nProtocol:\nWire protocol: "@ + info.wire_protocol_version@
        + "\nDescriptor format: "@ + decimal(ETLE_DESCRIPTOR_VERSION as nat)
        + "\nCapabilities: "@ + info.capability_raw_chunk_frame@ + ", "@ + info.capability_windowed_requests@
        + "\n\nVersion ABI string: "@ + version_abi_spec(info) + "\n"@
}

/// The long version text of `binary`: its version, git state, build
/// environment, protocol versions and version ABI string, one per line.
pub fn long_version(binary: &str, info: &BuildInfo) -> (r: String)
    ensures
        r@ == long_version_spec(binary@, *info),
{
    let mut s = binary.to_string();
    s.append(" ");
    s.append(info.version.as_str());
    s.append(" built from branch ");
    s.append(info.git_branch.as_str());
    s.append(" at commit ");
    s.append(info.git_commit.as_str());
    s.append(" ");
    s.append(info.git_dirty.as_str());
    s.append(" (");
    s.append(info.git_commit_message.as_str());
    s.append(").\nDate: ");
    s.append(info.build_date.as_str());
    s.append("\nTag: ");
    s.append(info.git_tag.as_str());
    s.append(", commits: ");
    s.append(info.git_commit_count.as_str());
    s.append("\n\nBuild:\nProfile: ");
    s.append(info.build_profile.as_str());
    s.append("\nTarget: ");
    s.append(info.build_target.as_str());
    s.append("\nHost: ");
    s.append(info.build_host.as_str());
    s.append("\nRustc: ");
    s.append(info.rustc_version.as_str());
    s.append("\nCI: ");
    s.append(info.build_ci.as_str());
    s.append("\nRepository: ");
    s.append(info.build_repository.as_str());
    s.append("\nRun ID: ");
    s.append(info.build_run_id.as_str());
    s.append("\n\nProtocol:\nWire protocol: ");
    s.append(info.wire_protocol_version.as_str());
    s.append("\nDescriptor format: ");
    s.append(decimal_string(ETLE_DESCRIPTOR_VERSION as u64).as_str());
    s.append("\nCapabilities: ");
    s.append(info.capability_raw_chunk_frame.as_str());
    s.append(", ");
    s.append(info.capability_windowed_requests.as_str());
    s.append("\n\nVersion ABI string: ");
    s.append(version_abi_string(info).as_str());
    s.append("\n");
    s
}

/// An argument that only asks for more output.
pub open spec fn is_verbose_flag(arg: Seq<char>) -> bool {
    arg == "-v"@ || arg == "--verbose"@
}

/// An argument that asks for the version.
pub open spec fn is_version_request(arg: Seq<char>) -> bool {
    arg == "--version"@ || arg == "-V"@ || arg == "version"@ || arg == "build-info"@ || arg == "--build-info"@
}

/// The arguments without the verbosity flags.
pub open spec fn without_verbose(args: Seq<Seq<char>>) -> Seq<Seq<char>>
    decreases args.len(),
{
    if args.len() == 0 {
        Seq::empty()
    } else {
        let rest = without_verbose(args.drop_last());
        if is_verbose_flag(args.last()) { rest } else { rest.push(args.last()) }
    }
}

/// Whether the command line asks only for the version: apart from `-v` and
/// `--verbose`, it is exactly one of `--version`, `-V`, `version`,
/// `build-info` and `--build-info`.
pub fn args_request_version(args: Vec<String>) -> (r: bool)
    ensures
        r == {
            let kept = without_verbose(args@.map_values(|a: String| a@));
            kept.len() == 1 && is_version_request(kept[0])
        },
{
    let ghost views = args@.map_values(|a: String| a@);
    let mut kept: Vec<String> = Vec::new();
    let mut i: usize = 0;
    while i < args.len()
        invariant
            views == args@.map_values(|a: String| a@),
            i <= args@.len(),
            kept@.map_values(|a: String| a@) == without_verbose(views.take(i as int)),
        decreases args@.len() - i,
    {
        let arg = args[i].as_str();
        proof {
            assert(views.take(i + 1).drop_last() =~= views.take(i as int));
            assert(views.take(i + 1).last() == arg@);
            reveal_strlit("-v");
            reveal_strlit("--verbose");
        }
        if !(str_equal(arg, "-v") || str_equal(arg, "--verbose")) {
            let ghost before = kept@;
            kept.push(args[i].clone());
            assert(kept@.map_values(|a: String| a@) =~= before.map_values(|a: String| a@).push(arg@));
        }
        i = i + 1;
    }
    assert(views.take(args@.len() as int) =~= views);
    if kept.len() != 1 {
        return false;
    }
    let only = kept[0].as_str();
    assert(kept@.map_values(|a: String| a@)[0] == only@);
    str_equal(only, "--version") || str_equal(only, "-V") || str_equal(only, "version") || str_equal(only, "build-info")
        || str_equal(only, "--build-info")
}

} // verus!
