//! The on-disk places a session's metadata lives: folders and file names
//! under the program's per-user cache directory.

use vstd::prelude::*;
use vstd::string::StringExecFns;

verus! {

/// The version folder component under the cache directory.
pub open spec fn spec_version_component() -> Seq<char> {
    "0.1.0"@
}

/// The session-information folder of one session under a cache base:
/// `<base>/<version>/session_info/<session>`.
pub open spec fn spec_session_info_folder(base: Seq<char>, session: Seq<char>) -> Seq<char> {
    base + "/"@ + spec_version_component() + "/session_info/"@ + session
}

/// Relies on `directories::ProjectDirs::from` and `cache_dir`: the per-user
/// cache directory of the Swarm program, when the platform names one. The
/// answer depends on the machine and environment, so nothing more is
/// promised of it.
#[verifier::external_body]
fn swarm_cache_dir() -> Option<String> {
    directories::ProjectDirs::from("org", "Swarm Contributors", "Swarm").map(
        |dirs| dirs.cache_dir().to_string_lossy().to_string(),
    )
}

/// The session-information folder of one session under a given cache base.
pub fn session_info_folder_in(base: &str, session_name: &str) -> (r: String)
    ensures
        r@ == spec_session_info_folder(base@, session_name@),
{
    let mut out = base.to_owned();
    out.append("/");
    out.append("0.1.0");
    out.append("/session_info/");
    out.append(session_name);
    out
}

/// The session-information folder of one session, under whatever cache base
/// the machine names — the empty base when it names none.
pub fn session_info_folder_for_session(session_name: &str) -> (r: String)
    ensures
        exists|base: Seq<char>| r@ == spec_session_info_folder(base, session_name@),
{
    let base = match swarm_cache_dir() {
        Some(b) => b,
        None => String::new(),
    };
    let r = session_info_folder_in(base.as_str(), session_name);
    proof {
        assert(r@ == spec_session_info_folder(base@, session_name@));
    }
    r
}

/// The file holding a session's metadata, inside its session-information
/// folder.
pub fn session_info_cache_file_name(session_name: &str) -> (r: String)
    ensures
        exists|base: Seq<char>|
            r@ == spec_session_info_folder(base, session_name@) + "/session-metadata.kdl"@,
{
    let folder = session_info_folder_for_session(session_name);
    let ghost fv: Seq<char> = folder@;
    let mut out = folder;
    out.append("/session-metadata.kdl");
    proof {
        let base = choose|base: Seq<char>| fv == spec_session_info_folder(base, session_name@);
        assert(out@ == spec_session_info_folder(base, session_name@)
            + "/session-metadata.kdl"@);
    }
    out
}

/// The file holding a session's layout, inside its session-information
/// folder.
pub fn session_layout_cache_file_name(session_name: &str) -> (r: String)
    ensures
        exists|base: Seq<char>|
            r@ == spec_session_info_folder(base, session_name@) + "/session-layout.kdl"@,
{
    let folder = session_info_folder_for_session(session_name);
    let ghost fv: Seq<char> = folder@;
    let mut out = folder;
    out.append("/session-layout.kdl");
    proof {
        let base = choose|base: Seq<char>| fv == spec_session_info_folder(base, session_name@);
        assert(out@ == spec_session_info_folder(base, session_name@) + "/session-layout.kdl"@);
    }
    out
}

} // verus!
