//! The sync plan engine: the two-way diff between the local and the
//! remote manifest.
//!
//! For every session the remote manifest describes: absent locally means
//! download; present with a different fingerprint is decided by the
//! timestamps, the remote side winning only when strictly newer, a
//! missing timestamp sorting below any present one; equal fingerprints
//! mean no action. Every local session the remote manifest does not
//! describe is uploaded. Plan computation is a pure function of the two
//! manifests: it performs no I/O and cannot fail.

use vstd::prelude::*;

verus! {

use crate::metadata::ChatSessionMetadata;
use crate::metadata::SyncMetadata;
use crate::metadata::has_session;
use crate::metadata::session_for;
use crate::metadata::unique_ids;
use crate::metadata::hash_view;
use crate::metadata::opt_view;
use crate::metadata::find_session;
use crate::metadata::lemma_session_for_is;

/// The per-session actions of one reconciliation run.
#[derive(Debug)]
pub struct SyncPlan {
    pub to_download: Vec<String>,
    pub to_upload: Vec<String>,
    pub conflicts: Vec<String>,
}

/// Whether the first timestamp is strictly newer than the second, a
/// missing timestamp sorting below any present one.
pub open spec fn spec_newer(a: Option<u64>, b: Option<u64>) -> bool {
    match (a, b) {
        (Some(x), Some(y)) => x > y,
        (Some(_), None) => true,
        (None, _) => false,
    }
}

/// The download rule: the remote manifest describes the session, and the
/// local side either lacks it or holds a different fingerprint with the
/// remote copy strictly newer.
pub open spec fn spec_to_download(
    local: Seq<ChatSessionMetadata>,
    remote: Seq<ChatSessionMetadata>,
    id: Seq<char>,
) -> bool {
    &&& has_session(remote, id)
    &&& (has_session(local, id) ==> {
        &&& hash_view(session_for(local, id)) != hash_view(session_for(remote, id))
        &&& spec_newer(session_for(remote, id).update_time, session_for(local, id).update_time)
    })
}

/// The upload rule: the local side holds the session and the remote
/// manifest either does not describe it, or holds a different
/// fingerprint without being strictly newer.
pub open spec fn spec_to_upload(
    local: Seq<ChatSessionMetadata>,
    remote: Seq<ChatSessionMetadata>,
    id: Seq<char>,
) -> bool {
    ||| (has_session(local, id) && !has_session(remote, id))
    ||| {
        &&& has_session(local, id)
        &&& has_session(remote, id)
        &&& hash_view(session_for(local, id)) != hash_view(session_for(remote, id))
        &&& !spec_newer(session_for(remote, id).update_time, session_for(local, id).update_time)
    }
}

/// Whether an id occurs in a plan column.
pub open spec fn plan_has(ids: Seq<String>, id: Seq<char>) -> bool {
    exists|i: int| 0 <= i < ids.len() && ids[i]@ == id
}

/// No id occurs twice in a plan column.
pub open spec fn unique_plan_ids(ids: Seq<String>) -> bool {
    forall|i: int, j: int| 0 <= i < j < ids.len() ==> ids[i]@ != ids[j]@
}

/// The plan is exactly what the rules select over the two session lists:
/// each column holds, without repetition, precisely the ids its rule
/// picks, and the reserved `conflicts` column is empty.
pub open spec fn spec_plan_matches(
    plan: SyncPlan,
    local: Seq<ChatSessionMetadata>,
    remote: Seq<ChatSessionMetadata>,
) -> bool {
    &&& (forall|id: Seq<char>|
        #[trigger] plan_has(plan.to_download@, id) <==> spec_to_download(local, remote, id))
    &&& (forall|id: Seq<char>|
        #[trigger] plan_has(plan.to_upload@, id) <==> spec_to_upload(local, remote, id))
    &&& unique_plan_ids(plan.to_download@)
    &&& unique_plan_ids(plan.to_upload@)
    &&& plan.conflicts@.len() == 0
}

/// Plan completeness: for an id present on either side, the download and
/// upload rules never both apply, and neither applies exactly when both
/// sides hold the session with the same fingerprint. Together with the
/// contract of `create_sync_plan` this places every such id in exactly
/// one of no-op, `to_download`, `to_upload`.
pub proof fn lemma_plan_partition(
    local: Seq<ChatSessionMetadata>,
    remote: Seq<ChatSessionMetadata>,
    id: Seq<char>,
)
    requires
        has_session(local, id) || has_session(remote, id),
    ensures
        !(spec_to_download(local, remote, id) && spec_to_upload(local, remote, id)),
        (!spec_to_download(local, remote, id) && !spec_to_upload(local, remote, id)) <==> {
            &&& has_session(local, id)
            &&& has_session(remote, id)
            &&& hash_view(session_for(local, id)) == hash_view(session_for(remote, id))
        },
{
    if !has_session(local, id) {
        assert(spec_to_download(local, remote, id));
    } else if !has_session(remote, id) {
        assert(spec_to_upload(local, remote, id));
    }
}

/// Plan completeness, stated over a computed plan: every id present on
/// either side appears in at most one column, and in no column exactly
/// when both sides hold the session with the same fingerprint.
pub proof fn lemma_plan_complete(
    plan: SyncPlan,
    local: Seq<ChatSessionMetadata>,
    remote: Seq<ChatSessionMetadata>,
    id: Seq<char>,
)
    requires
        spec_plan_matches(plan, local, remote),
        has_session(local, id) || has_session(remote, id),
    ensures
        !(plan_has(plan.to_download@, id) && plan_has(plan.to_upload@, id)),
        !(plan_has(plan.to_download@, id) || plan_has(plan.to_upload@, id)) <==> {
            &&& has_session(local, id)
            &&& has_session(remote, id)
            &&& hash_view(session_for(local, id)) == hash_view(session_for(remote, id))
        },
{
    lemma_plan_partition(local, remote, id);
}

fn opt_string_eq(a: &Option<String>, b: &Option<String>) -> (r: bool)
    ensures
        r == (opt_view(*a) == opt_view(*b)),
{
    match (a, b) {
        (Some(x), Some(y)) => *x == *y,
        (None, None) => true,
        (Some(_), None) => false,
        (None, Some(_)) => false,
    }
}

proof fn lemma_plan_push_unique(ids: Seq<String>, v: String)
    requires
        unique_plan_ids(ids),
        !plan_has(ids, v@),
    ensures
        unique_plan_ids(ids.push(v)),
{
    let ids2 = ids.push(v);
    assert forall|x: int, y: int| 0 <= x < y < ids2.len() implies ids2[x]@ != ids2[y]@ by {
        if y < ids.len() {
        } else {
            if ids[x]@ == v@ {
                assert(plan_has(ids, v@));
            }
        }
    }
}

fn newer(a: Option<u64>, b: Option<u64>) -> (r: bool)
    ensures
        r == spec_newer(a, b),
{
    match (a, b) {
        (Some(x), Some(y)) => x > y,
        (Some(_), None) => true,
        (None, _) => false,
    }
}

proof fn lemma_plan_push(ids: Seq<String>, v: String)
    ensures
        forall|id: Seq<char>|
            #[trigger] plan_has(ids.push(v), id) <==> (plan_has(ids, id) || id == v@),
{
    let ids2 = ids.push(v);
    assert forall|id: Seq<char>|
        #[trigger] plan_has(ids2, id) <==> (plan_has(ids, id) || id == v@) by {
        if plan_has(ids2, id) {
            let w = choose|i: int| 0 <= i < ids2.len() && ids2[i]@ == id;
            if w < ids.len() {
                assert(ids[w]@ == id);
            }
        }
        if plan_has(ids, id) {
            let w = choose|i: int| 0 <= i < ids.len() && ids[i]@ == id;
            assert(ids2[w]@ == id);
        }
        if id == v@ {
            assert(ids2[ids.len() as int]@ == id);
        }
    }
}

/// Whether one of the first `n` sessions carries the id.
spec fn scanned(s: Seq<ChatSessionMetadata>, id: Seq<char>, n: int) -> bool {
    exists|k: int| 0 <= k < n && k < s.len() && s[k].id@ == id
}

impl SyncPlan {
    /// The empty plan.
    pub fn new() -> (r: SyncPlan)
        ensures
            r.to_download@.len() == 0,
            r.to_upload@.len() == 0,
            r.conflicts@.len() == 0,
    {
        SyncPlan { to_download: Vec::new(), to_upload: Vec::new(), conflicts: Vec::new() }
    }

    /// Compute the plan for one reconciliation run. Each column holds,
    /// without repetition, exactly the ids its rule selects; the
    /// `conflicts` column is reserved and stays empty.
    pub fn create_sync_plan(&self, local: &SyncMetadata, remote: &SyncMetadata) -> (r: SyncPlan)
        requires
            unique_ids(local.chat_session@),
            unique_ids(remote.chat_session@),
        ensures
            spec_plan_matches(r, local.chat_session@, remote.chat_session@),
    {
        let ghost lv = local.chat_session@;
        let ghost rv = remote.chat_session@;
        let mut plan = SyncPlan {
            to_download: Vec::new(),
            to_upload: Vec::new(),
            conflicts: Vec::new(),
        };
        let mut i: usize = 0;
        while i < remote.chat_session.len()
            invariant
                0 <= i <= rv.len(),
                lv == local.chat_session@,
                rv == remote.chat_session@,
                unique_ids(lv),
                unique_ids(rv),
                plan.conflicts@.len() == 0,
                unique_plan_ids(plan.to_download@),
                unique_plan_ids(plan.to_upload@),
                forall|id: Seq<char>|
                    #[trigger] plan_has(plan.to_download@, id) <==> (spec_to_download(lv, rv, id)
                        && scanned(rv, id, i as int)),
                forall|id: Seq<char>|
                    #[trigger] plan_has(plan.to_upload@, id) <==> (spec_to_upload(lv, rv, id)
                        && scanned(rv, id, i as int)),
            decreases rv.len() - i,
        {
            let rs = &remote.chat_session[i];
            let ghost idv = rs.id@;
            proof {
                lemma_session_for_is(rv, i as int);
                assert forall|id: Seq<char>|
                    scanned(rv, id, i as int + 1) <==> (scanned(rv, id, i as int) || id
                        == idv) by {
                    if scanned(rv, id, i as int + 1) {
                        let k = choose|k: int| 0 <= k < i as int + 1 && k < rv.len() && rv[k].id@
                            == id;
                        if k == i as int {
                            assert(id == idv);
                        }
                    }
                    if id == idv {
                        assert(rv[i as int].id@ == id);
                    }
                }
                assert(!scanned(rv, idv, i as int));
            }
            match find_session(&local.chat_session, rs.id.as_str()) {
                Some(ls) => {
                    if !opt_string_eq(&ls.hash, &rs.hash) {
                        if newer(rs.update_time, ls.update_time) {
                            proof {
                                assert(spec_to_download(lv, rv, idv));
                                assert(!plan_has(plan.to_download@, idv));
                                lemma_plan_push(plan.to_download@, rs.id);
                                lemma_plan_push_unique(plan.to_download@, rs.id);
                            }
                            let ghost pre = plan.to_download@;
                            plan.to_download.push(rs.id.clone());
                            proof {
                                assert(plan.to_download@ == pre.push(rs.id));
                            }
                        } else {
                            proof {
                                assert(spec_to_upload(lv, rv, idv));
                                assert(!plan_has(plan.to_upload@, idv));
                                lemma_plan_push(plan.to_upload@, rs.id);
                                lemma_plan_push_unique(plan.to_upload@, rs.id);
                            }
                            let ghost pre = plan.to_upload@;
                            plan.to_upload.push(rs.id.clone());
                            proof {
                                assert(plan.to_upload@ == pre.push(rs.id));
                            }
                        }
                    } else {
                        proof {
                            assert(!spec_to_download(lv, rv, idv));
                            assert(!spec_to_upload(lv, rv, idv));
                        }
                    }
                },
                None => {
                    proof {
                        assert(spec_to_download(lv, rv, idv));
                        assert(!plan_has(plan.to_download@, idv));
                        lemma_plan_push(plan.to_download@, rs.id);
                        lemma_plan_push_unique(plan.to_download@, rs.id);
                    }
                    let ghost pre = plan.to_download@;
                    plan.to_download.push(rs.id.clone());
                    proof {
                        assert(plan.to_download@ == pre.push(rs.id));
                    }
                },
            }
            i = i + 1;
        }
        proof {
            assert forall|id: Seq<char>|
                scanned(rv, id, rv.len() as int) <==> has_session(rv, id) by {}
        }
        let mut j: usize = 0;
        while j < local.chat_session.len()
            invariant
                0 <= j <= lv.len(),
                lv == local.chat_session@,
                rv == remote.chat_session@,
                unique_ids(lv),
                unique_ids(rv),
                plan.conflicts@.len() == 0,
                unique_plan_ids(plan.to_download@),
                unique_plan_ids(plan.to_upload@),
                forall|id: Seq<char>|
                    #[trigger] plan_has(plan.to_download@, id) <==> spec_to_download(lv, rv, id),
                forall|id: Seq<char>|
                    #[trigger] plan_has(plan.to_upload@, id) <==> (spec_to_upload(lv, rv, id) && (
                    has_session(rv, id) || scanned(lv, id, j as int))),
            decreases lv.len() - j,
        {
            let ls = &local.chat_session[j];
            let ghost idv = ls.id@;
            proof {
                lemma_session_for_is(lv, j as int);
                assert forall|id: Seq<char>|
                    scanned(lv, id, j as int + 1) <==> (scanned(lv, id, j as int) || id
                        == idv) by {
                    if scanned(lv, id, j as int + 1) {
                        let k = choose|k: int| 0 <= k < j as int + 1 && k < lv.len() && lv[k].id@
                            == id;
                        if k == j as int {
                            assert(id == idv);
                        }
                    }
                    if id == idv {
                        assert(lv[j as int].id@ == id);
                    }
                }
                assert(!scanned(lv, idv, j as int));
            }
            match find_session(&remote.chat_session, ls.id.as_str()) {
                Some(_) => {
                    proof {
                        assert(has_session(rv, idv));
                    }
                },
                None => {
                    proof {
                        assert(spec_to_upload(lv, rv, idv));
                        assert(!plan_has(plan.to_upload@, idv));
                        lemma_plan_push(plan.to_upload@, ls.id);
                        lemma_plan_push_unique(plan.to_upload@, ls.id);
                    }
                    let ghost pre = plan.to_upload@;
                    plan.to_upload.push(ls.id.clone());
                    proof {
                        assert(plan.to_upload@ == pre.push(ls.id));
                    }
                },
            }
            j = j + 1;
        }
        proof {
            assert forall|id: Seq<char>|
                (spec_to_upload(lv, rv, id) && (has_session(rv, id) || scanned(
                    lv,
                    id,
                    lv.len() as int,
                ))) <==> spec_to_upload(lv, rv, id) by {
                if spec_to_upload(lv, rv, id) {
                    assert(has_session(lv, id));
                }
            }
        }
        plan
    }
}

} // verus!
