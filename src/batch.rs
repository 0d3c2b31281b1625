//! Bookkeeping of push and pull batches.
use vstd::prelude::*;
use crate::error::AdbError;
use crate::transfer::{PullResult, PushResult};

verus! {

/// The outcomes that a batch keeps, in source order: each one up to and
/// including the first fatal one.
pub open spec fn kept<T>(s: Seq<T>, fatal: spec_fn(T) -> bool) -> Seq<T>
    decreases s.len(),
{
    if s.len() == 0 {
        s
    } else if fatal(s[0]) {
        seq![s[0]]
    } else {
        seq![s[0]] + kept(s.drop_first(), fatal)
    }
}

/// A batch of N transfers reports one outcome per transfer, in source order:
/// all N when none is fatal, and the first K + 1 when the transfer at index K
/// is the first fatal one.
pub proof fn lemma_batch_length<T>(s: Seq<T>, fatal: spec_fn(T) -> bool, k: int)
    ensures
        (forall|i: int| 0 <= i < s.len() ==> !fatal(#[trigger] s[i])) ==> kept(s, fatal) == s,
        0 <= k < s.len() && fatal(s[k]) && (forall|i: int| 0 <= i < k ==> !fatal(#[trigger] s[i]))
            ==> kept(s, fatal) == s.take(k + 1) && kept(s, fatal).len() == k + 1,
    decreases s.len(),
{
    if s.len() > 0 {
        let t = s.drop_first();
        lemma_batch_length(t, fatal, k - 1);
        if forall|i: int| 0 <= i < s.len() ==> !fatal(#[trigger] s[i]) {
            assert forall|i: int| 0 <= i < t.len() implies !fatal(#[trigger] t[i]) by {
                assert(t[i] == s[i + 1]);
            }
            assert(seq![s[0]] + t =~= s);
        }
        if 0 <= k < s.len() && fatal(s[k]) && (forall|i: int| 0 <= i < k ==> !fatal(#[trigger] s[i])) {
            if k > 0 {
                assert(!fatal(s[0]));
                assert forall|i: int| 0 <= i < k - 1 implies !fatal(#[trigger] t[i]) by {
                    assert(t[i] == s[i + 1]);
                }
                assert(t[k - 1] == s[k]);
                assert(seq![s[0]] + t.take(k) =~= s.take(k + 1));
            } else {
                assert(seq![s[0]] =~= s.take(1));
            }
        }
    }
}

/// A batch that keeps all its outcomes has no fatal one before the last.
proof fn lemma_kept_all<T>(s: Seq<T>, fatal: spec_fn(T) -> bool)
    requires
        kept(s, fatal) == s,
    ensures
        forall|i: int| 0 <= i < s.len() - 1 ==> !fatal(#[trigger] s[i]),
    decreases s.len(),
{
    if s.len() >= 2 {
        let t = s.drop_first();
        assert(!fatal(s[0])) by {
            if fatal(s[0]) {
                assert(kept(s, fatal).len() == 1);
            }
        }
        assert(kept(s, fatal) == seq![s[0]] + kept(t, fatal));
        assert(kept(t, fatal) =~= (seq![s[0]] + kept(t, fatal)).drop_first());
        assert(kept(t, fatal) == t);
        lemma_kept_all(t, fatal);
        assert forall|i: int| 0 <= i < s.len() - 1 implies !fatal(#[trigger] s[i]) by {
            if i > 0 {
                assert(s[i] == t[i - 1]);
            }
        }
    }
}

/// Recording one more outcome after only harmless ones keeps it.
proof fn lemma_kept_push<T>(s: Seq<T>, x: T, fatal: spec_fn(T) -> bool)
    requires
        forall|i: int| 0 <= i < s.len() ==> !fatal(#[trigger] s[i]),
    ensures
        kept(s.push(x), fatal) == s.push(x),
{
    let t = s.push(x);
    if fatal(x) {
        lemma_batch_length(t, fatal, s.len() as int);
        assert(t.take(s.len() + 1 as int) =~= t);
    } else {
        lemma_batch_length(t, fatal, 0);
        assert forall|i: int| 0 <= i < t.len() implies !fatal(#[trigger] t[i]) by {
            if i < s.len() {
                assert(t[i] == s[i]);
            }
        }
    }
}

/// Whether a push outcome ends its batch.
pub open spec fn push_fatal(r: (String, Result<PushResult, AdbError>)) -> bool {
    r.1 is Err || r.1 matches Ok(PushResult::FailedAllPush(_))
}

/// Whether a pull outcome ends its batch.
pub open spec fn pull_fatal(r: (String, Result<PullResult, AdbError>)) -> bool {
    r.1 is Err || r.1 matches Ok(PullResult::FailedAllPull(_))
}

/// The outcomes of a push batch, one per source path.
pub struct PushBatch {
    results: Vec<(String, Result<PushResult, AdbError>)>,
    stopped: bool,
}

impl PushBatch {
    pub closed spec fn view_results(&self) -> Seq<(String, Result<PushResult, AdbError>)> {
        self.results@
    }

    pub closed spec fn is_stopped(&self) -> bool {
        self.stopped
    }

    /// Every outcome so far is kept; the batch stops at the first fatal one.
    pub closed spec fn wf(&self) -> bool {
        &&& kept(self.results@, |r| push_fatal(r)) == self.results@
        &&& self.stopped <==> (self.results@.len() > 0 && push_fatal(self.results@.last()))
    }

    pub fn new() -> (r: PushBatch)
        ensures
            r.wf(),
            r.view_results().len() == 0,
            !r.is_stopped(),
    {
        PushBatch { results: Vec::new(), stopped: false }
    }

    /// Records the outcome of the next source and says whether the batch
    /// goes on.
    pub fn record(&mut self, path: String, outcome: Result<PushResult, AdbError>) -> (go_on: bool)
        requires
            old(self).wf(),
            !old(self).is_stopped(),
        ensures
            final(self).wf(),
            final(self).view_results() == old(self).view_results().push((path, outcome)),
            final(self).view_results() == kept(final(self).view_results(), |r| push_fatal(r)),
            go_on == !final(self).is_stopped(),
            go_on == !push_fatal((path, outcome)),
    {
        let fatal = match &outcome {
            Ok(PushResult::FailedAllPush(_)) => true,
            Err(_) => true,
            _ => false,
        };
        proof {
            let s = self.results@;
            lemma_kept_all(s, |r| push_fatal(r));
            assert forall|i: int| 0 <= i < s.len() implies !push_fatal(#[trigger] s[i]) by {
                if i == s.len() - 1 {
                    assert(s[i] == s.last());
                }
            }
            lemma_kept_push(s, (path, outcome), |r| push_fatal(r));
        }
        self.results.push((path, outcome));
        self.stopped = fatal;
        !fatal
    }

    /// The kept outcomes.
    pub fn into_results(self) -> (r: Vec<(String, Result<PushResult, AdbError>)>)
        ensures
            r@ == self.view_results(),
    {
        self.results
    }
}

/// The outcomes of a pull batch, one per remote path.
pub struct PullBatch {
    results: Vec<(String, Result<PullResult, AdbError>)>,
    stopped: bool,
}

impl PullBatch {
    pub closed spec fn view_results(&self) -> Seq<(String, Result<PullResult, AdbError>)> {
        self.results@
    }

    pub closed spec fn is_stopped(&self) -> bool {
        self.stopped
    }

    /// Every outcome so far is kept; the batch stops at the first fatal one.
    pub closed spec fn wf(&self) -> bool {
        &&& kept(self.results@, |r| pull_fatal(r)) == self.results@
        &&& self.stopped <==> (self.results@.len() > 0 && pull_fatal(self.results@.last()))
    }

    pub fn new() -> (r: PullBatch)
        ensures
            r.wf(),
            r.view_results().len() == 0,
            !r.is_stopped(),
    {
        PullBatch { results: Vec::new(), stopped: false }
    }

    /// Records the outcome of the next source and says whether the batch
    /// goes on.
    pub fn record(&mut self, path: String, outcome: Result<PullResult, AdbError>) -> (go_on: bool)
        requires
            old(self).wf(),
            !old(self).is_stopped(),
        ensures
            final(self).wf(),
            final(self).view_results() == old(self).view_results().push((path, outcome)),
            final(self).view_results() == kept(final(self).view_results(), |r| pull_fatal(r)),
            go_on == !final(self).is_stopped(),
            go_on == !pull_fatal((path, outcome)),
    {
        let fatal = match &outcome {
            Ok(PullResult::FailedAllPull(_)) => true,
            Err(_) => true,
            _ => false,
        };
        proof {
            let s = self.results@;
            lemma_kept_all(s, |r| pull_fatal(r));
            assert forall|i: int| 0 <= i < s.len() implies !pull_fatal(#[trigger] s[i]) by {
                if i == s.len() - 1 {
                    assert(s[i] == s.last());
                }
            }
            lemma_kept_push(s, (path, outcome), |r| pull_fatal(r));
        }
        self.results.push((path, outcome));
        self.stopped = fatal;
        !fatal
    }

    /// The kept outcomes.
    pub fn into_results(self) -> (r: Vec<(String, Result<PullResult, AdbError>)>)
        ensures
            r@ == self.view_results(),
    {
        self.results
    }
}

} // verus!
