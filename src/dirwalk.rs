//! Directory transfers: the breadth-first walk of a remote tree and the
//! totals of a directory.
use vstd::prelude::*;
use crate::paths::{join_chars, join_path, trim_end_slashes, trim_slashes};
use crate::stat::{is_dir_mode, RemoteDirEntry, S_IFDIR};
use crate::transfer::{PullResult, PushResult};

verus! {

/// A remote directory still to be listed, and where its contents go: a path
/// relative to the local target, empty for the target itself.
#[derive(Debug)]
pub struct PendingDir {
    pub remote: String,
    pub local: String,
}

/// A remote file to receive, and its local path relative to the target.
#[derive(Debug)]
pub struct FileJob {
    pub remote: String,
    pub local: String,
}

/// `.` and `..`, which a listing may hold and a walk passes over.
pub open spec fn is_dot_name(n: Seq<char>) -> bool {
    n == "."@ || n == ".."@
}

/// Remote path of an entry of a listed directory.
pub open spec fn child_remote(dir: Seq<char>, name: Seq<char>) -> Seq<char> {
    trim_slashes(dir) + "/"@ + name
}

/// The pairs of remote and local paths of the subdirectories in a listing,
/// in listing order.
pub open spec fn subdirs(remote: Seq<char>, local: Seq<char>, es: Seq<RemoteDirEntry>) -> Seq<(Seq<char>, Seq<char>)>
    decreases es.len(),
{
    if es.len() == 0 {
        Seq::empty()
    } else {
        let p = subdirs(remote, local, es.drop_last());
        let e = es.last();
        if !is_dot_name(e.name@) && is_dir_mode(e.mode) {
            p.push((child_remote(remote, e.name@), join_chars(local, e.name@)))
        } else {
            p
        }
    }
}

/// The pairs of remote and local paths of the files in a listing, in
/// listing order.
pub open spec fn files(remote: Seq<char>, local: Seq<char>, es: Seq<RemoteDirEntry>) -> Seq<(Seq<char>, Seq<char>)>
    decreases es.len(),
{
    if es.len() == 0 {
        Seq::empty()
    } else {
        let p = files(remote, local, es.drop_last());
        let e = es.last();
        if !is_dot_name(e.name@) && !is_dir_mode(e.mode) {
            p.push((child_remote(remote, e.name@), join_chars(local, e.name@)))
        } else {
            p
        }
    }
}

pub open spec fn dir_pairs(q: Seq<PendingDir>) -> Seq<(Seq<char>, Seq<char>)> {
    q.map_values(|d: PendingDir| (d.remote@, d.local@))
}

pub open spec fn job_pairs(q: Seq<FileJob>) -> Seq<(Seq<char>, Seq<char>)> {
    q.map_values(|d: FileJob| (d.remote@, d.local@))
}

fn is_dot(name: &String) -> (r: bool)
    ensures
        r == is_dot_name(name@),
{
    let n = name.as_str().unicode_len();
    if n == 1 {
        let r = name.as_str().get_char(0) == '.';
        proof {
            reveal_strlit(".");
            reveal_strlit("..");
            if r {
                assert(name@ =~= "."@);
            }
        }
        r
    } else if n == 2 {
        let r = name.as_str().get_char(0) == '.' && name.as_str().get_char(1) == '.';
        proof {
            reveal_strlit(".");
            reveal_strlit("..");
            if r {
                assert(name@ =~= ".."@);
            }
        }
        r
    } else {
        proof {
            reveal_strlit(".");
            reveal_strlit("..");
        }
        false
    }
}

/// The queue of a breadth-first pull of a remote directory tree.
pub struct DirPull {
    queue: Vec<PendingDir>,
    next: usize,
}

impl DirPull {
    /// The directories still to be listed, first to last.
    pub closed spec fn pending(&self) -> Seq<(Seq<char>, Seq<char>)> {
        dir_pairs(self.queue@.subrange(self.next as int, self.queue@.len() as int))
    }

    pub closed spec fn wf(&self) -> bool {
        self.next <= self.queue@.len()
    }

    /// A walk that starts at the remote directory `remote`.
    pub fn new(remote: String) -> (r: DirPull)
        ensures
            r.wf(),
            r.pending() == seq![(remote@, Seq::<char>::empty())],
    {
        let mut queue: Vec<PendingDir> = Vec::new();
        queue.push(PendingDir { remote, local: String::new() });
        let r = DirPull { queue, next: 0 };
        assert(r.pending() =~= seq![(remote@, Seq::<char>::empty())]);
        r
    }

    /// Takes the directory at the front of the queue.
    pub fn next_dir(&mut self) -> (r: Option<PendingDir>)
        requires
            old(self).wf(),
        ensures
            final(self).wf(),
            old(self).pending().len() == 0 ==> r is None && final(self).pending() == old(self).pending(),
            old(self).pending().len() > 0 ==> (r matches Some(d) && (d.remote@, d.local@) == old(
                self,
            ).pending()[0] && final(self).pending() == old(self).pending().drop_first()),
    {
        if self.next >= self.queue.len() {
            return None;
        }
        let d = PendingDir {
            remote: self.queue[self.next].remote.clone(),
            local: self.queue[self.next].local.clone(),
        };
        self.next = self.next + 1;
        assert(final(self).pending() =~= old(self).pending().drop_first());
        Some(d)
    }

    /// Takes in the listing of `dir`: its subdirectories join the back of the
    /// queue, and its files are returned, both in listing order. `.` and `..`
    /// are passed over.
    pub fn visit(&mut self, dir: &PendingDir, entries: &Vec<RemoteDirEntry>) -> (r: Vec<FileJob>)
        requires
            old(self).wf(),
        ensures
            final(self).wf(),
            final(self).pending() == old(self).pending() + subdirs(dir.remote@, dir.local@, entries@),
            job_pairs(r@) == files(dir.remote@, dir.local@, entries@),
    {
        let base = trim_end_slashes(dir.remote.as_str());
        let mut out: Vec<FileJob> = Vec::new();
        let mut i: usize = 0;
        while i < entries.len()
            invariant
                i <= entries@.len(),
                self.wf(),
                self.next == old(self).next,
                base@ == trim_slashes(dir.remote@),
                self.pending() == old(self).pending() + subdirs(dir.remote@, dir.local@, entries@.take(i as int)),
                job_pairs(out@) == files(dir.remote@, dir.local@, entries@.take(i as int)),
            decreases entries@.len() - i,
        {
            let e = &entries[i];
            let ghost es = entries@.take(i + 1);
            assert(es.drop_last() =~= entries@.take(i as int));
            assert(es.last() == entries@[i as int]);
            if !is_dot(&e.name) {
                let remote = base.clone().concat("/").concat(e.name.as_str());
                let local = join_path(dir.local.as_str(), e.name.as_str());
                if e.mode & S_IFDIR != 0 {
                    let ghost before = self.queue@;
                    let ghost pend_before = self.pending();
                    let ghost pair = (remote@, local@);
                    self.queue.push(PendingDir { remote, local });
                    assert(self.queue@.last().remote@ == pair.0 && self.queue@.last().local@ == pair.1);
                    assert(self.pending() =~= pend_before.push(pair));
                    assert(self.queue@.subrange(self.next as int, self.queue@.len() as int) =~= before.subrange(self.next as int, before.len() as int).push(self.queue@.last()));
                    assert(remote@ == child_remote(dir.remote@, e.name@));
                    assert(is_dir_mode(e.mode));
                    assert(subdirs(dir.remote@, dir.local@, es) == subdirs(dir.remote@, dir.local@, entries@.take(i as int)).push((remote@, local@)));
                    assert(self.pending() =~= old(self).pending() + subdirs(dir.remote@, dir.local@, es));
                } else {
                    out.push(FileJob { remote, local });
                    assert(job_pairs(out@) =~= files(dir.remote@, dir.local@, es));
                }
            }
            i = i + 1;
        }
        assert(entries@.take(entries@.len() as int) =~= entries@);
        out
    }
}

/// Running totals of a directory transfer.
#[derive(Debug, Clone, Copy)]
pub struct Tally {
    pub files: u32,
    pub bytes: u64,
}

impl Tally {
    pub fn new() -> (r: Tally)
        ensures
            r.files == 0 && r.bytes == 0,
    {
        Tally { files: 0, bytes: 0 }
    }

    /// Counts one transferred file of `bytes` bytes; the counters stop at
    /// their largest value.
    pub fn add_file(&mut self, bytes: u64)
        ensures
            final(self).files == if old(self).files == u32::MAX { u32::MAX } else { (old(self).files + 1) as u32 },
            final(self).bytes == if old(self).bytes + bytes > u64::MAX { u64::MAX } else { (old(self).bytes + bytes) as u64 },
    {
        self.files = self.files.saturating_add(1);
        self.bytes = self.bytes.saturating_add(bytes);
    }

    /// Takes in the outcome of one pushed file and says whether the directory
    /// push goes on: a sent file counts, a skipped one does not, a refused one
    /// ends it.
    pub fn record_push(&mut self, r: &PushResult) -> (go_on: bool)
        ensures
            go_on == !(r is FailedAllPush),
            r matches PushResult::Success(b, _, _) ==> final(self).files == if old(self).files == u32::MAX { u32::MAX } else { (old(self).files + 1) as u32 }
                && final(self).bytes == if old(self).bytes + *b > u64::MAX { u64::MAX } else { (old(self).bytes + *b) as u64 },
            !(r is Success) ==> *final(self) == *old(self),
    {
        match r {
            PushResult::Success(b, _, _) => {
                self.add_file(*b);
                true
            },
            PushResult::FailedAllPush(_) => false,
            _ => true,
        }
    }

    /// Takes in the outcome of one pulled file and says whether the directory
    /// pull goes on.
    pub fn record_pull(&mut self, r: &PullResult) -> (go_on: bool)
        ensures
            go_on == !(r is FailedAllPull),
            r matches PullResult::Success(b, _, _) ==> final(self).files == if old(self).files == u32::MAX { u32::MAX } else { (old(self).files + 1) as u32 }
                && final(self).bytes == if old(self).bytes + *b > u64::MAX { u64::MAX } else { (old(self).bytes + *b) as u64 },
            !(r is Success) ==> *final(self) == *old(self),
    {
        match r {
            PullResult::Success(b, _, _) => {
                self.add_file(*b);
                true
            },
            PullResult::FailedAllPull(_) => false,
            _ => true,
        }
    }

    /// The outcome of a pushed directory.
    pub fn push_result(&self, micros: u64) -> (r: PushResult)
        ensures
            r == PushResult::SuccessDirectory(self.bytes, micros, self.files as usize),
    {
        PushResult::SuccessDirectory(self.bytes, micros, self.files as usize)
    }

    /// The outcome of a pulled directory.
    pub fn pull_result(&self, micros: u64) -> (r: PullResult)
        ensures
            r == PullResult::SuccessDirectory(self.bytes, micros, self.files),
    {
        PullResult::SuccessDirectory(self.bytes, micros, self.files)
    }
}

} // verus!
