//! The long version text, from the facts recorded when the program was built.
use vstd::prelude::*;
use vstd::string::StringExecFns;

verus! {

/// What was recorded about the build.
#[derive(Debug)]
pub struct BuildInfo {
    pub pkg_version: String,
    pub commit_hash: String,
    /// The branch, empty when it could not be found.
    pub branch: String,
    /// The name of the tag or branch the CI build ran for, if any.
    pub ci_ref_name: Option<String>,
    pub git_clean: bool,
    pub build_time: String,
    pub rust_version: String,
    pub build_os: String,
    pub build_target: String,
    pub commit_message: Option<String>,
}

/// The branch shown: the recorded one, else the CI's reference, else "unknown".
pub open spec fn shown_branch(info: BuildInfo) -> Seq<char> {
    if info.branch@.len() > 0 {
        info.branch@
    } else {
        match info.ci_ref_name {
            Some(r) => r@,
            None => "unknown"@,
        }
    }
}

/// The long version text.
pub open spec fn long_version_text(info: BuildInfo) -> Seq<char> {
    info.pkg_version@ + " built from branch "@ + shown_branch(info) + " at commit "@ + info.commit_hash@ + " "@
        + (if info.git_clean {
        "clean"@
    } else {
        "dirty"@
    }) + " ("@ + match info.commit_message {
        Some(m) => m@,
        None => "no commit message"@,
    } + ")\nBuild: "@ + info.build_time@ + "\nTarget: "@ + info.build_target@ + " ("@ + info.build_os@
        + ")\nRustc: "@ + info.rust_version@
}

/// Returns the long version string with build information.
pub fn long_version(info: &BuildInfo) -> (r: String)
    ensures
        r@ == long_version_text(*info),
{
    let git_branch: &str = if !info.branch.as_str().is_empty() {
        info.branch.as_str()
    } else {
        match &info.ci_ref_name {
            Some(r) => r.as_str(),
            None => "unknown",
        }
    };
    let git_dirty = if info.git_clean {
        "clean"
    } else {
        "dirty"
    };
    let commit_msg: &str = match &info.commit_message {
        Some(m) => m.as_str(),
        None => "no commit message",
    };
    let s = String::from_str(info.pkg_version.as_str());
    let s = s.concat(" built from branch ");
    let s = s.concat(git_branch);
    let s = s.concat(" at commit ");
    let s = s.concat(info.commit_hash.as_str());
    let s = s.concat(" ");
    let s = s.concat(git_dirty);
    let s = s.concat(" (");
    let s = s.concat(commit_msg);
    let s = s.concat(")\nBuild: ");
    let s = s.concat(info.build_time.as_str());
    let s = s.concat("\nTarget: ");
    let s = s.concat(info.build_target.as_str());
    let s = s.concat(" (");
    let s = s.concat(info.build_os.as_str());
    let s = s.concat(")\nRustc: ");
    let s = s.concat(info.rust_version.as_str());
    proof {
        assert(s@ =~= long_version_text(*info));
    }
    s
}

} // verus!
