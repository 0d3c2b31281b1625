//! Decisions of file transfers: which bytes a push sends, where each file
//! goes, and what a batch of transfers reports.
use vstd::prelude::*;
use vstd::utf8::encode_utf8;
use crate::error::AdbError;
use crate::paths::{ends_with_sep, ends_with_separator, file_name, file_name_of};
use crate::stat::StatData;
use crate::sync::{send_request, send_target, sync_frame, SyncTag};

verus! {

/// Outcome of pushing one local path.
#[derive(Debug, Clone)]
pub enum PushResult {
    /// Not sent: the remote copy is at least as new.
    Skip,
    /// One file sent: bytes, elapsed microseconds, file count.
    Success(u64, u64, usize),
    /// A directory sent: bytes, elapsed microseconds, file count.
    SuccessDirectory(u64, u64, usize),
    /// The server refused a file; the batch stops here.
    FailedAllPush(String),
}

/// Outcome of pulling one remote path.
#[derive(Debug, Clone)]
pub enum PullResult {
    /// One file received: bytes, elapsed microseconds, file count.
    Success(u64, u64, u32),
    /// A directory received: bytes, elapsed microseconds, file count.
    SuccessDirectory(u64, u64, u32),
    /// A file could not be received; the batch stops here.
    FailedAllPull(String),
}

/// Default mode of a pushed file.
pub const DEFAULT_PUSH_MODE: u32 = 0o644;

/// Mode of a pushed file whose local copy has an execute bit.
pub const EXECUTABLE_PUSH_MODE: u32 = 0o755;

/// The remote mode for a local file mode: `0755` when any execute bit is set,
/// else `0644`.
pub open spec fn push_mode_of(local_mode: u32) -> u32 {
    if local_mode & 0o111u32 != 0 {
        0o755
    } else {
        0o644
    }
}

pub fn push_mode(local_mode: u32) -> (r: u32)
    ensures
        r == push_mode_of(local_mode),
{
    if local_mode & 0o111 != 0 {
        EXECUTABLE_PUSH_MODE
    } else {
        DEFAULT_PUSH_MODE
    }
}

/// Whether a push is skipped: `--sync` is on, the remote file exists, and the
/// local copy is not newer.
pub open spec fn push_skipped(sync: bool, remote: Option<StatData>, local_mtime: i64) -> bool {
    sync && remote is Some && local_mtime <= remote->0.spec_mtime()
}

pub fn should_push(sync: bool, remote: &Option<StatData>, local_mtime: i64) -> (r: bool)
    ensures
        r == !push_skipped(sync, *remote, local_mtime),
{
    match remote {
        Some(stat) => !sync || local_mtime > stat.mtime(),
        None => true,
    }
}

/// The `SEND` request that starts a push, or `None` when the push is
/// skipped and nothing is sent. `remote` is the remote file's `STAT` record,
/// `None` when it has none or the lookup failed.
pub fn begin_push(
    remote_path: &str,
    local_mode: u32,
    local_mtime: i64,
    sync: bool,
    remote: &Option<StatData>,
) -> (r: Result<Option<Vec<u8>>, AdbError>)
    ensures
        push_skipped(sync, *remote, local_mtime) ==> r matches Ok(None),
        !push_skipped(sync, *remote, local_mtime) ==> match r {
            Ok(Some(v)) => v@ == sync_frame(
                SyncTag::Send,
                encode_utf8(send_target(remote_path@, push_mode_of(local_mode))),
            ),
            Ok(None) => false,
            Err(e) => e is Argument && encode_utf8(send_target(remote_path@, push_mode_of(local_mode))).len() >= 0x1_0000_0000,
        },
{
    if !should_push(sync, remote, local_mtime) {
        return Ok(None);
    }
    match send_request(remote_path, push_mode(local_mode)) {
        Ok(v) => Ok(Some(v)),
        Err(e) => Err(e),
    }
}

/// The text of a push that the server refused.
pub open spec fn push_failure_text(local: Seq<char>, remote: Seq<char>, message: Seq<char>) -> Seq<char> {
    "adb: error: failed to copy '"@ + local + "' to '"@ + remote + "': remote "@ + message
}

/// The outcome of one pushed file, from the status that ended it:
/// `None` for success, or the server's message.
pub fn push_outcome(local: &str, remote: &str, bytes: u64, micros: u64, refusal: Option<String>) -> (r: PushResult)
    ensures
        match refusal {
            None => r == PushResult::Success(bytes, micros, 1),
            Some(m) => r matches PushResult::FailedAllPush(t) && t@ == push_failure_text(local@, remote@, m@),
        },
{
    match refusal {
        None => PushResult::Success(bytes, micros, 1),
        Some(m) => PushResult::FailedAllPush(
            String::from_str("adb: error: failed to copy '").concat(local).concat("' to '").concat(
                remote,
            ).concat("': remote ").concat(m.as_str()),
        ),
    }
}

/// Whether a push batch must go to a directory: several sources, or a target
/// that ends in a separator.
pub open spec fn push_needs_directory(n_sources: nat, remote: Seq<char>) -> bool {
    n_sources > 1 || ends_with_sep(remote)
}

/// The remote directory form of a target: with one trailing separator.
pub open spec fn directory_form(remote: Seq<char>) -> Seq<char> {
    if ends_with_sep(remote) {
        remote
    } else {
        remote + "/"@
    }
}

/// Where one source of a push goes.
pub open spec fn push_target_of(local: Seq<char>, remote: Seq<char>, remote_is_dir: bool) -> Option<Seq<char>> {
    if remote_is_dir || ends_with_sep(remote) {
        match file_name_of(local) {
            Some(n) => Some(directory_form(remote) + n),
            None => None,
        }
    } else {
        Some(remote)
    }
}

pub open spec fn not_a_directory_text(remote: Seq<char>) -> Seq<char> {
    "adbr: error: target '"@ + remote + "' is not a directory"@
}

/// The remote path of each source of a push. `remote_is_dir` is what `STAT`
/// says of the target. A directory target gets each source's base name.
pub fn push_targets(local_paths: &Vec<String>, remote: &str, remote_is_dir: bool) -> (r: Result<Vec<String>, AdbError>)
    ensures
        !remote_is_dir && push_needs_directory(local_paths@.len(), remote@) ==> (r matches Err(AdbError::Argument(m))
            && m@ == not_a_directory_text(remote@)),
        !(!remote_is_dir && push_needs_directory(local_paths@.len(), remote@)) ==> match r {
            Ok(v) => v@.len() == local_paths@.len() && forall|i: int|
                0 <= i < v@.len() ==> push_target_of(local_paths@[i]@, remote@, remote_is_dir) == Some(
                    #[trigger] v@[i]@,
                ),
            Err(e) => e is Argument && exists|i: int|
                0 <= i < local_paths@.len() && push_target_of(#[trigger] local_paths@[i]@, remote@, remote_is_dir) is None,
        },
{
    let sep = ends_with_separator(remote);
    if !remote_is_dir && (local_paths.len() > 1 || sep) {
        return Err(AdbError::Argument(
            String::from_str("adbr: error: target '").concat(remote).concat("' is not a directory"),
        ));
    }
    let into_dir = remote_is_dir || sep;
    let dir = if sep {
        String::from_str(remote)
    } else {
        String::from_str(remote).concat("/")
    };
    let mut out: Vec<String> = Vec::new();
    let mut i: usize = 0;
    while i < local_paths.len()
        invariant
            i <= local_paths@.len(),
            into_dir == (remote_is_dir || ends_with_sep(remote@)),
            !(!remote_is_dir && push_needs_directory(local_paths@.len(), remote@)),
            dir@ == directory_form(remote@),
            out@.len() == i,
            forall|j: int| 0 <= j < i ==> push_target_of(local_paths@[j]@, remote@, remote_is_dir) == Some(#[trigger] out@[j]@),
        decreases local_paths@.len() - i,
    {
        if into_dir {
            match file_name(local_paths[i].as_str()) {
                Some(n) => {
                    out.push(dir.clone().concat(n.as_str()));
                },
                None => {
                    assert(push_target_of(local_paths@[i as int]@, remote@, remote_is_dir) is None);
                    return Err(AdbError::Argument(String::from_str("Invalid local filename")));
                },
            }
        } else {
            out.push(String::from_str(remote));
        }
        i = i + 1;
    }
    Ok(out)
}

/// Where a pulled file goes when the local target is a directory: inside it,
/// under the remote file's base name. `None` means the local path itself.
pub fn pull_destination(remote: &str, into_directory: bool) -> (r: Result<Option<String>, AdbError>)
    ensures
        !into_directory ==> r matches Ok(None),
        into_directory ==> match r {
            Ok(Some(n)) => file_name_of(remote@) == Some(n@),
            Ok(None) => false,
            Err(e) => e is Argument && file_name_of(remote@) is None,
        },
{
    if !into_directory {
        return Ok(None);
    }
    match file_name(remote) {
        Some(n) => Ok(Some(n)),
        None => Err(AdbError::Argument(String::from_str("Invalid remote filename"))),
    }
}

/// Whether a pull batch writes into a directory: several sources, or a local
/// target that is a directory.
pub fn pull_into_directory(n_sources: usize, local_is_dir: bool) -> (r: bool)
    ensures
        r == (n_sources > 1 || local_is_dir),
{
    n_sources > 1 || local_is_dir
}

} // verus!
