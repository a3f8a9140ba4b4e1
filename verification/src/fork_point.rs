//! The fork-point worker protocol: ancestor checks served off the
//! interactive path.
//!
//! A long-lived background thread receives requests, serves each with
//! one ancestor query and sends a response back; the caller polls
//! without blocking and reconciles responses by identifier, since
//! arrival order is not guaranteed. The thread and its channels live
//! with the caller; the decisions live here.

use vstd::prelude::*;

use git_wrapper::Repository;

verus! {

use crate::commit::{Commit, Oid, clone_oid};

/// One ancestor check to perform: is `first` an ancestor of
/// `second`? `working_dir` names the repository to ask.
pub struct ForkPointRequest {
    pub first: Oid,
    pub second: Oid,
    pub working_dir: String,
}

/// The worker's answer: the identifier of the request it answers,
/// echoed back, and the check's outcome. The outcome is absent where
/// the query failed: a failure becomes an unknown answer, never the
/// end of the worker.
pub struct ForkPointResponse {
    pub oid: Oid,
    pub value: Option<bool>,
}

impl ForkPointResponse {
    /// Whether this response answers for the commit with the given
    /// identifier.
    pub fn answers(&self, id: &Oid) -> (r: bool)
        ensures
            r == (self.oid.0@ == id.0@),
    {
        self.oid.0 == id.0
    }
}

/// Serves one request with one ancestor query against the repository.
/// The response echoes the request's identifier whatever the query
/// said; a failed query becomes the unknown outcome.
pub fn serve_fork_point_request(repo: &Repository, req: &ForkPointRequest) -> (r:
    ForkPointResponse)
    requires
        crate::git::repo_usable(repo),
    ensures
        r.oid.0@ == req.first.0@,
{
    let value = match crate::git::is_ancestor(repo, req.first.0.as_str(), req.second.0.as_str()) {
        Ok(b) => Some(b),
        Err(_) => None,
    };
    ForkPointResponse { oid: clone_oid(&req.first), value }
}

/// How one commit looks once a response is applied to it: the
/// fork-point flag takes the known outcome where the identifiers
/// match; everything else stays as it was.
pub open spec fn spec_apply_response(c: Commit, resp: ForkPointResponse) -> Commit {
    match resp.value {
        Some(v) => if c.id.0@ == resp.oid.0@ {
            Commit { is_fork_point: v, ..c }
        } else {
            c
        },
        None => c,
    }
}

/// Reconciles one response with the materialized commits: every
/// commit the response answers for gets its fork-point flag set to
/// the known outcome; an unknown outcome changes nothing; no commit
/// is added, dropped or reordered.
pub fn apply_fork_point(commits: &mut Vec<Commit>, resp: &ForkPointResponse)
    ensures
        final(commits)@.len() == old(commits)@.len(),
        forall|i: int|
            0 <= i < old(commits)@.len() ==> final(commits)@[i] == spec_apply_response(
                #[trigger] old(commits)@[i],
                *resp,
            ),
{
    let v = match resp.value {
        Some(v) => v,
        None => {
            return ;
        },
    };
    let ghost orig = commits@;
    let mut stack: Vec<Commit> = Vec::new();
    proof {
        assert(commits@ =~= orig.take(commits@.len() as int));
    }
    while commits.len() > 0
        invariant
            resp.value == Some(v),
            stack@.len() + commits@.len() == orig.len(),
            commits@ == orig.take(commits@.len() as int),
            forall|k: int|
                0 <= k < stack@.len() ==> stack@[k] == spec_apply_response(
                    #[trigger] orig[orig.len() - 1 - k],
                    *resp,
                ),
        decreases commits@.len(),
    {
        let ghost m = commits@.len() as int;
        let mut c = match commits.pop() {
            Some(c) => c,
            None => {
                return ;  // unreachable: the vector is non-empty
            },
        };
        proof {
            assert(orig.take(m).last() == orig[m - 1]);
            assert(commits@ =~= orig.take(commits@.len() as int));
        }
        let ghost c0 = c;
        if c.id.0 == resp.oid.0 {
            c.set_fork_point(v);
            proof {
                assert(c == Commit { is_fork_point: v, ..c0 });
            }
        }
        stack.push(c);
    }
    while stack.len() > 0
        invariant
            commits@.len() + stack@.len() == orig.len(),
            forall|k: int|
                0 <= k < stack@.len() ==> stack@[k] == spec_apply_response(
                    #[trigger] orig[orig.len() - 1 - k],
                    *resp,
                ),
            forall|j: int|
                0 <= j < commits@.len() ==> commits@[j] == spec_apply_response(
                    #[trigger] orig[j],
                    *resp,
                ),
        decreases stack@.len(),
    {
        let ghost st0 = stack@;
        let ghost cl = commits@.len() as int;
        match stack.pop() {
            Some(c) => {
                proof {
                    assert(c == st0[st0.len() - 1]);
                    assert(st0[st0.len() - 1] == spec_apply_response(
                        orig[orig.len() - 1 - (st0.len() - 1)],
                        *resp,
                    ));
                    assert(orig.len() - 1 - (st0.len() - 1) == cl);
                }
                commits.push(c);
            },
            None => {
                return ;  // unreachable: the stack is non-empty
            },
        }
    }
}

} // verus!
