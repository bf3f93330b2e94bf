//! Applying a downloaded session to the local store: a point update that
//! replaces the record carrying the same id and keeps every other record
//! exactly as it was; a session the store does not hold yet is appended.

use vstd::prelude::*;

verus! {

use crate::metadata::ChatSessionMetadata;
use crate::metadata::has_session;

/// Merge a downloaded session into the local session records.
///
/// Every record whose id differs from the downloaded session's keeps its
/// position and its value; every record carrying that id is replaced by
/// the downloaded session; when no record carries it, the session is
/// appended at the end.
pub fn merge_session(records: &Vec<ChatSessionMetadata>, session: ChatSessionMetadata) -> (r: Vec<
    ChatSessionMetadata,
>)
    ensures
        has_session(records@, session.id@) ==> {
            &&& r@.len() == records@.len()
            &&& (forall|i: int|
                0 <= i < records@.len() ==> r@[i] == (if records@[i].id@ == session.id@ {
                    session
                } else {
                    records@[i]
                }))
        },
        !has_session(records@, session.id@) ==> r@ == records@.push(session),
{
    let mut out: Vec<ChatSessionMetadata> = Vec::new();
    let mut found = false;
    let mut i: usize = 0;
    while i < records.len()
        invariant
            0 <= i <= records@.len(),
            out@.len() == i,
            forall|j: int|
                0 <= j < i ==> out@[j] == (if records@[j].id@ == session.id@ {
                    session
                } else {
                    records@[j]
                }),
            found <==> (exists|j: int| 0 <= j < i && records@[j].id@ == session.id@),
        decreases records@.len() - i,
    {
        match crate::metadata::compare_ids(records[i].id.as_str(), session.id.as_str()) {
            crate::metadata::IdOrder::Same => {
                out.push(session.clone());
                found = true;
                proof {
                    assert(records@[i as int].id@ == session.id@);
                }
            },
            crate::metadata::IdOrder::Before => {
                proof {
                    crate::metadata::lemma_id_lt_ne(records@[i as int].id@, session.id@);
                }
                out.push(records[i].clone());
            },
            crate::metadata::IdOrder::After => {
                proof {
                    crate::metadata::lemma_id_lt_ne(session.id@, records@[i as int].id@);
                }
                out.push(records[i].clone());
            },
        }
        i = i + 1;
    }
    if !found {
        out.push(session);
        proof {
            assert(out@ =~= records@.push(session));
        }
    }
    out
}

} // verus!
