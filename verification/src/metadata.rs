//! The manifest model: per-session metadata, the manifest exchanged with
//! the remote provider, and the builder that derives both from the local
//! session records.
//!
//! A manifest keeps its sessions strictly sorted by the UTF-8 bytes of
//! their ids. Sorting gives the canonical, order-independent wire
//! encoding that the aggregate fingerprint is computed over, and makes
//! ids unique as a consequence.

use vstd::prelude::*;

verus! {

use vstd::utf8::encode_utf8;
use vstd::utf8::decode_utf8;
use vstd::utf8::encode_utf8_decode_utf8;
use vstd::string::StringExecFns;
use crate::fingerprint::spec_fingerprint;
use crate::fingerprint::fingerprint;

/// Metadata derived for one chat session: its id, the fingerprint of its
/// content, the source record's timestamp, and — in memory only, never on
/// the wire — the full document text.
#[derive(Debug)]
pub struct ChatSessionMetadata {
    pub hash: Option<String>,
    pub id: String,
    pub update_time: Option<u64>,
    pub content: Option<String>,
}

/// The manifest exchanged with the remote provider: an aggregate
/// fingerprint, the time the manifest was built (epoch milliseconds), and
/// the per-session metadata, sorted by id.
#[derive(Debug)]
pub struct SyncMetadata {
    pub hash: String,
    pub last_sync: u64,
    pub chat_session: Vec<ChatSessionMetadata>,
}

fn clone_opt_string(o: &Option<String>) -> (r: Option<String>)
    ensures
        r == *o,
{
    match o {
        Some(s) => Some(s.clone()),
        None => None,
    }
}

impl Clone for ChatSessionMetadata {
    fn clone(&self) -> (r: Self)
        ensures
            r == *self,
    {
        ChatSessionMetadata {
            hash: clone_opt_string(&self.hash),
            id: self.id.clone(),
            update_time: self.update_time,
            content: clone_opt_string(&self.content),
        }
    }
}

impl Clone for SyncMetadata {
    fn clone(&self) -> (r: Self)
        ensures
            r.hash == self.hash,
            r.last_sync == self.last_sync,
            r.chat_session@ == self.chat_session@,
    {
        let mut sessions: Vec<ChatSessionMetadata> = Vec::new();
        let mut i: usize = 0;
        while i < self.chat_session.len()
            invariant
                0 <= i <= self.chat_session.len(),
                sessions@ =~= self.chat_session@.subrange(0, i as int),
            decreases self.chat_session.len() - i,
        {
            sessions.push(self.chat_session[i].clone());
            i = i + 1;
        }
        proof {
            assert(sessions@ =~= self.chat_session@);
        }
        SyncMetadata { hash: self.hash.clone(), last_sync: self.last_sync, chat_session: sessions }
    }
}

/// Whether some session in the sequence carries the given id.
pub open spec fn has_session(s: Seq<ChatSessionMetadata>, id: Seq<char>) -> bool {
    exists|i: int| 0 <= i < s.len() && s[i].id@ == id
}

/// The session carrying the given id (meaningful when ids are unique).
pub open spec fn session_for(s: Seq<ChatSessionMetadata>, id: Seq<char>) -> ChatSessionMetadata {
    s[choose|i: int| 0 <= i < s.len() && s[i].id@ == id]
}

/// The view of an optional string.
pub open spec fn opt_view(o: Option<String>) -> Option<Seq<char>> {
    match o {
        Some(s) => Some(s@),
        None => None,
    }
}

/// The fingerprint field of a session, as a sequence of characters.
pub open spec fn hash_view(s: ChatSessionMetadata) -> Option<Seq<char>> {
    opt_view(s.hash)
}

/// The content field of a session, as a sequence of characters.
pub open spec fn content_view(s: ChatSessionMetadata) -> Option<Seq<char>> {
    opt_view(s.content)
}

/// Everything of a session that travels in the manifest, as views: the
/// id, the fingerprint, and the timestamp. The content never travels.
pub open spec fn session_view(s: ChatSessionMetadata) -> (Seq<char>, Option<Seq<char>>, Option<
    u64,
>) {
    (s.id@, hash_view(s), s.update_time)
}

/// Strict lexicographic order on byte sequences.
pub open spec fn bytes_lt(a: Seq<u8>, b: Seq<u8>) -> bool
    decreases a.len(),
{
    if b.len() == 0 {
        false
    } else if a.len() == 0 {
        true
    } else if a[0] != b[0] {
        a[0] < b[0]
    } else {
        bytes_lt(a.drop_first(), b.drop_first())
    }
}

/// Strict order on session ids: the UTF-8 bytes of one id sort below the
/// UTF-8 bytes of the other.
pub open spec fn id_lt(a: Seq<char>, b: Seq<char>) -> bool {
    bytes_lt(encode_utf8(a), encode_utf8(b))
}

/// The sessions are strictly sorted by id.
pub open spec fn sorted_ids(s: Seq<ChatSessionMetadata>) -> bool {
    forall|i: int, j: int| 0 <= i < j < s.len() ==> id_lt(s[i].id@, s[j].id@)
}

/// No two sessions share an id.
pub open spec fn unique_ids(s: Seq<ChatSessionMetadata>) -> bool {
    forall|i: int, j: int| 0 <= i < j < s.len() ==> s[i].id@ != s[j].id@
}

/// `norm` is the canonical form of `orig`: sorted by id, one entry per
/// id, each entry being the last one `orig` held for that id.
pub open spec fn spec_normalized(orig: Seq<ChatSessionMetadata>, norm: Seq<ChatSessionMetadata>) -> bool {
    &&& sorted_ids(norm)
    &&& (forall|id: Seq<char>| #[trigger] has_session(norm, id) <==> has_session(orig, id))
    &&& (forall|id: Seq<char>| #[trigger]
        has_session(orig, id) ==> session_for(norm, id) == orig[spec_last_index(orig, id)])
}

/// `m` is a manifest correctly built from the local session records:
/// canonical session list, every entry fingerprinted from the last
/// record with its id, and the aggregate fingerprint — never empty —
/// computed over the canonical encoding.
pub open spec fn spec_built_manifest(records: Seq<ChatSessionMetadata>, m: SyncMetadata) -> bool {
    &&& m.wf()
    &&& !spec_is_absent(m)
    &&& m.hash@.len() == 64
    &&& m.hash@ == crate::codec::spec_aggregate_fingerprint(m.chat_session@)
    &&& (forall|id: Seq<char>|
        #[trigger] has_session(m.chat_session@, id) <==> has_session(records, id))
    &&& (forall|id: Seq<char>| #[trigger]
        has_session(records, id) ==> {
            let rec = records[spec_last_index(records, id)];
            &&& session_for(m.chat_session@, id).id@ == id
            &&& session_for(m.chat_session@, id).content == rec.content
            &&& session_for(m.chat_session@, id).update_time == rec.update_time
            &&& content_view(rec) is Some
            &&& hash_view(session_for(m.chat_session@, id)) == Some(
                spec_fingerprint(content_view(rec).unwrap()),
            )
        })
    &&& (forall|i: int|
        0 <= i < m.chat_session@.len() ==> (#[trigger] m.chat_session@[i]).content is Some
            && m.chat_session@[i].hash is Some)
}

pub proof fn lemma_encode_utf8_injective(a: Seq<char>, b: Seq<char>)
    requires
        encode_utf8(a) == encode_utf8(b),
    ensures
        a == b,
{
    encode_utf8_decode_utf8(a);
    encode_utf8_decode_utf8(b);
    assert(decode_utf8(encode_utf8(a)) == decode_utf8(encode_utf8(b)));
}

pub proof fn lemma_bytes_lt_irreflexive(a: Seq<u8>)
    ensures
        !bytes_lt(a, a),
    decreases a.len(),
{
    if a.len() > 0 {
        lemma_bytes_lt_irreflexive(a.drop_first());
    }
}

pub proof fn lemma_bytes_lt_transitive(a: Seq<u8>, b: Seq<u8>, c: Seq<u8>)
    requires
        bytes_lt(a, b),
        bytes_lt(b, c),
    ensures
        bytes_lt(a, c),
    decreases a.len() + b.len() + c.len(),
{
    if a.len() == 0 {
        assert(b.len() > 0);
        assert(c.len() > 0);
    } else {
        assert(b.len() > 0);
        assert(c.len() > 0);
        if a[0] == b[0] && b[0] == c[0] {
            lemma_bytes_lt_transitive(a.drop_first(), b.drop_first(), c.drop_first());
        }
    }
}

/// Strict sorting by id makes ids unique.
pub proof fn lemma_sorted_unique(s: Seq<ChatSessionMetadata>)
    requires
        sorted_ids(s),
    ensures
        unique_ids(s),
{
    assert forall|i: int, j: int| 0 <= i < j < s.len() implies s[i].id@ != s[j].id@ by {
        if s[i].id@ == s[j].id@ {
            assert(id_lt(s[i].id@, s[j].id@));
            lemma_bytes_lt_irreflexive(encode_utf8(s[i].id@));
        }
    }
}

/// Three-way comparison results for id ordering.
#[derive(Debug, Clone, Copy, PartialEq, Eq, Structural)]
pub enum IdOrder {
    Before,
    Same,
    After,
}

proof fn lemma_bytes_lt_from_difference(a: Seq<u8>, b: Seq<u8>, k: int)
    requires
        0 <= k <= a.len(),
        k <= b.len(),
        forall|i: int| 0 <= i < k ==> a[i] == b[i],
        (k < a.len() && k < b.len() && a[k] < b[k]) || (k == a.len() && k < b.len()),
    ensures
        bytes_lt(a, b),
    decreases k,
{
    if k == 0 {
    } else {
        assert(a[0] == b[0]);
        let a2 = a.drop_first();
        let b2 = b.drop_first();
        assert(forall|i: int| 0 <= i < k - 1 ==> a2[i] == b2[i]);
        if k < a.len() {
            assert(a2[k - 1] == a[k]);
            assert(b2[k - 1] == b[k]);
        }
        lemma_bytes_lt_from_difference(a2, b2, k - 1);
    }
}

/// Three-way comparison of two ids under the canonical byte order.
pub fn compare_ids(a: &str, b: &str) -> (r: IdOrder)
    ensures
        r == IdOrder::Before ==> id_lt(a@, b@),
        r == IdOrder::Same ==> a@ == b@,
        r == IdOrder::After ==> id_lt(b@, a@),
{
    let ab = a.as_bytes();
    let bb = b.as_bytes();
    let mut i: usize = 0;
    while i < ab.len() && i < bb.len()
        invariant
            0 <= i <= ab@.len(),
            i <= bb@.len(),
            ab@ == encode_utf8(a@),
            bb@ == encode_utf8(b@),
            forall|j: int| 0 <= j < i ==> ab@[j] == bb@[j],
        decreases ab@.len() - i,
    {
        let x = ab[i];
        let y = bb[i];
        if x < y {
            proof {
                lemma_bytes_lt_from_difference(ab@, bb@, i as int);
            }
            return IdOrder::Before;
        }
        if y < x {
            proof {
                lemma_bytes_lt_from_difference(bb@, ab@, i as int);
            }
            return IdOrder::After;
        }
        i = i + 1;
    }
    if ab.len() < bb.len() {
        proof {
            lemma_bytes_lt_from_difference(ab@, bb@, i as int);
        }
        IdOrder::Before
    } else if bb.len() < ab.len() {
        proof {
            lemma_bytes_lt_from_difference(bb@, ab@, i as int);
        }
        IdOrder::After
    } else {
        proof {
            assert(ab@ =~= bb@);
            lemma_encode_utf8_injective(a@, b@);
        }
        IdOrder::Same
    }
}

pub proof fn lemma_id_lt_ne(a: Seq<char>, b: Seq<char>)
    requires
        id_lt(a, b),
    ensures
        a != b,
{
    if a == b {
        lemma_bytes_lt_irreflexive(encode_utf8(a));
    }
}

/// With unique ids, the session found at a position is the one that
/// `session_for` denotes for that position's id.
pub proof fn lemma_session_for_is(s: Seq<ChatSessionMetadata>, p: int)
    requires
        unique_ids(s),
        0 <= p < s.len(),
    ensures
        has_session(s, s[p].id@),
        session_for(s, s[p].id@) == s[p],
{
    assert(has_session(s, s[p].id@));
    let i0 = choose|i: int| 0 <= i < s.len() && s[i].id@ == s[p].id@;
    if i0 < p {
        assert(s[i0].id@ != s[p].id@);
    } else if p < i0 {
        assert(s[p].id@ != s[i0].id@);
    }
}

/// Look a session up by id.
pub fn find_session<'a>(list: &'a Vec<ChatSessionMetadata>, id: &str) -> (r: Option<
    &'a ChatSessionMetadata,
>)
    requires
        unique_ids(list@),
    ensures
        match r {
            Some(s) => has_session(list@, id@) && *s == session_for(list@, id@) && s.id@ == id@,
            None => !has_session(list@, id@),
        },
{
    let mut i: usize = 0;
    while i < list.len()
        invariant
            0 <= i <= list@.len(),
            unique_ids(list@),
            forall|j: int| 0 <= j < i ==> list@[j].id@ != id@,
        decreases list@.len() - i,
    {
        match compare_ids(list[i].id.as_str(), id) {
            IdOrder::Same => {
                proof {
                    lemma_session_for_is(list@, i as int);
                }
                return Some(&list[i]);
            },
            IdOrder::Before => {
                proof {
                    lemma_id_lt_ne(list@[i as int].id@, id@);
                }
            },
            IdOrder::After => {
                proof {
                    lemma_id_lt_ne(id@, list@[i as int].id@);
                }
            },
        }
        i = i + 1;
    }
    None
}

/// Insert a session into a sorted list, replacing the entry with the same
/// id if one is present, keeping the list sorted.
pub fn insert_sorted(list: &mut Vec<ChatSessionMetadata>, s: ChatSessionMetadata)
    requires
        sorted_ids(old(list)@),
    ensures
        sorted_ids(final(list)@),
        forall|id: Seq<char>|
            has_session(final(list)@, id) <==> (has_session(old(list)@, id) || id == s.id@),
        has_session(final(list)@, s.id@),
        session_for(final(list)@, s.id@) == s,
        forall|id: Seq<char>|
            id != s.id@ && #[trigger] has_session(old(list)@, id) ==> has_session(final(list)@, id)
                && session_for(final(list)@, id) == session_for(old(list)@, id),
{
    let ghost pre = list@;
    let mut i: usize = 0;
    while i < list.len()
        invariant
            0 <= i <= list@.len(),
            list@ == pre,
            pre == old(list)@,
            sorted_ids(pre),
            forall|j: int| 0 <= j < i ==> id_lt(pre[j].id@, s.id@),
        decreases list@.len() - i,
    {
        match compare_ids(s.id.as_str(), list[i].id.as_str()) {
            IdOrder::After => {
                i = i + 1;
            },
            IdOrder::Same => {
                let ghost p = i as int;
                list[i] = s;
                proof {
                    let post = list@;
                    assert(post == pre.update(p, s));
                    assert forall|x: int, y: int| 0 <= x < y < post.len() implies id_lt(
                        post[x].id@,
                        post[y].id@,
                    ) by {
                        assert(post[x].id@ == pre[x].id@);
                        assert(post[y].id@ == pre[y].id@);
                    }
                    lemma_sorted_unique(post);
                    lemma_sorted_unique(pre);
                    lemma_session_for_is(post, p);
                    assert forall|id: Seq<char>|
                        has_session(post, id) <==> (has_session(pre, id) || id == s.id@) by {
                        if has_session(post, id) {
                            let w = choose|k: int| 0 <= k < post.len() && post[k].id@ == id;
                            if w == p {
                                assert(id == s.id@);
                            } else {
                                assert(pre[w].id@ == id);
                            }
                        }
                        if has_session(pre, id) {
                            let w = choose|k: int| 0 <= k < pre.len() && pre[k].id@ == id;
                            assert(post[w].id@ == id);
                        }
                        if id == s.id@ {
                            assert(post[p].id@ == id);
                        }
                    }
                    assert forall|id: Seq<char>|
                        id != s.id@ && #[trigger] has_session(pre, id) implies has_session(post, id)
                        && session_for(post, id) == session_for(pre, id) by {
                        let w = choose|k: int| 0 <= k < pre.len() && pre[k].id@ == id;
                        assert(w != p);
                        assert(post[w].id@ == id);
                        lemma_session_for_is(pre, w);
                        lemma_session_for_is(post, w);
                    }
                }
                return ;
            },
            IdOrder::Before => {
                let ghost p = i as int;
                proof {
                    lemma_id_lt_ne(s.id@, pre[p].id@);
                }
                list.insert(i, s);
                proof {
                    let post = list@;
                    assert(post == pre.insert(p, s));
                    assert(post.len() == pre.len() + 1);
                    assert(forall|j: int| 0 <= j < p ==> post[j] == pre[j]);
                    assert(post[p] == s);
                    assert(forall|j: int| p < j < post.len() ==> post[j] == pre[j - 1]);
                    lemma_insert_position_sorted(pre, s, p);
                    assert(sorted_ids(post));
                    lemma_sorted_unique(post);
                    lemma_sorted_unique(pre);
                    lemma_session_for_is(post, p);
                    assert forall|id: Seq<char>|
                        has_session(post, id) <==> (has_session(pre, id) || id == s.id@) by {
                        if has_session(post, id) {
                            let w = choose|k: int| 0 <= k < post.len() && post[k].id@ == id;
                            if w < p {
                                assert(pre[w].id@ == id);
                            } else if w == p {
                                assert(id == s.id@);
                            } else {
                                assert(pre[w - 1].id@ == id);
                            }
                        }
                        if has_session(pre, id) {
                            let w = choose|k: int| 0 <= k < pre.len() && pre[k].id@ == id;
                            if w < p {
                                assert(post[w].id@ == id);
                            } else {
                                assert(post[w + 1].id@ == id);
                            }
                        }
                        if id == s.id@ {
                            assert(post[p].id@ == id);
                        }
                    }
                    assert forall|id: Seq<char>|
                        id != s.id@ && #[trigger] has_session(pre, id) implies has_session(post, id)
                        && session_for(post, id) == session_for(pre, id) by {
                        let w = choose|k: int| 0 <= k < pre.len() && pre[k].id@ == id;
                        lemma_session_for_is(pre, w);
                        if w < p {
                            assert(post[w].id@ == id);
                            lemma_session_for_is(post, w);
                        } else {
                            assert(post[w + 1].id@ == id);
                            lemma_session_for_is(post, w + 1);
                        }
                    }
                }
                return ;
            },
        }
    }
    let ghost p = list@.len() as int;
    list.push(s);
    proof {
        let post = list@;
        assert(post == pre.push(s));
        assert(post =~= pre.insert(p, s));
        lemma_insert_position_sorted(pre, s, p);
        assert(sorted_ids(post));
        lemma_sorted_unique(post);
        lemma_sorted_unique(pre);
        lemma_session_for_is(post, p);
        assert forall|id: Seq<char>|
            has_session(post, id) <==> (has_session(pre, id) || id == s.id@) by {
            if has_session(post, id) {
                let w = choose|k: int| 0 <= k < post.len() && post[k].id@ == id;
                if w < p {
                    assert(pre[w].id@ == id);
                } else {
                    assert(id == s.id@);
                }
            }
            if has_session(pre, id) {
                let w = choose|k: int| 0 <= k < pre.len() && pre[k].id@ == id;
                assert(post[w].id@ == id);
            }
            if id == s.id@ {
                assert(post[p].id@ == id);
            }
        }
        assert forall|id: Seq<char>|
            id != s.id@ && #[trigger] has_session(pre, id) implies has_session(post, id)
            && session_for(post, id) == session_for(pre, id) by {
            let w = choose|k: int| 0 <= k < pre.len() && pre[k].id@ == id;
            lemma_session_for_is(pre, w);
            assert(post[w].id@ == id);
            lemma_session_for_is(post, w);
        }
    }
}

/// Whether a manifest is the absent-remote sentinel: the aggregate
/// fingerprint is the empty string.
pub open spec fn spec_is_absent(m: SyncMetadata) -> bool {
    m.hash@.len() == 0
}

impl SyncMetadata {
    /// Well-formed manifests keep their sessions strictly sorted by id.
    pub open spec fn wf(self) -> bool {
        sorted_ids(self.chat_session@)
    }

    /// Whether this manifest is the absent-remote sentinel.
    pub fn is_absent(&self) -> (r: bool)
        ensures
            r == spec_is_absent(*self),
    {
        self.hash.as_str().is_empty()
    }

    /// The sentinel manifest standing for "no manifest ever uploaded":
    /// an empty aggregate fingerprint over no sessions, as opposed to a
    /// real manifest that happens to describe zero sessions.
    pub fn default() -> (r: SyncMetadata)
        ensures
            spec_is_absent(r),
            r.wf(),
            r.hash@ == Seq::<char>::empty(),
            r.last_sync == 0,
            r.chat_session@ == Seq::<ChatSessionMetadata>::empty(),
    {
        SyncMetadata { hash: String::new(), last_sync: 0, chat_session: Vec::new() }
    }
}

/// The index of the last record in the sequence carrying the given id,
/// or -1 when none does.
pub open spec fn spec_last_index(s: Seq<ChatSessionMetadata>, id: Seq<char>) -> int
    decreases s.len(),
{
    if s.len() == 0 {
        -1
    } else if s.last().id@ == id {
        s.len() - 1
    } else {
        spec_last_index(s.drop_last(), id)
    }
}

pub proof fn lemma_last_index_props(s: Seq<ChatSessionMetadata>, id: Seq<char>)
    requires
        has_session(s, id),
    ensures
        0 <= spec_last_index(s, id) < s.len(),
        s[spec_last_index(s, id)].id@ == id,
    decreases s.len(),
{
    if s.last().id@ == id {
    } else {
        let w = choose|i: int| 0 <= i < s.len() && s[i].id@ == id;
        assert(w < s.len() - 1);
        assert(s.drop_last()[w] == s[w]);
        assert(has_session(s.drop_last(), id));
        lemma_last_index_props(s.drop_last(), id);
        assert(s[spec_last_index(s.drop_last(), id)] == s.drop_last()[spec_last_index(
            s.drop_last(),
            id,
        )]);
    }
}

proof fn lemma_last_index_push(s: Seq<ChatSessionMetadata>, v: ChatSessionMetadata, id: Seq<char>)
    ensures
        spec_last_index(s.push(v), id) == if v.id@ == id {
            s.len() as int
        } else {
            spec_last_index(s, id)
        },
{
    let s2 = s.push(v);
    assert(s2.last() == v);
    assert(s2.drop_last() =~= s);
}

/// Derive the per-session metadata of a manifest from the local session
/// records: fingerprint each record's content and keep, for every id,
/// the record given last, sorted by id. A record without content cannot
/// be synchronized and fails the build.
pub fn build_session_metadata(records: &Vec<ChatSessionMetadata>) -> (r: Result<
    Vec<ChatSessionMetadata>,
    String,
>)
    ensures
        match r {
            Ok(list) => {
                &&& sorted_ids(list@)
                &&& (forall|id: Seq<char>|
                    #[trigger] has_session(list@, id) <==> has_session(records@, id))
                &&& (forall|id: Seq<char>| #[trigger]
                    has_session(records@, id) ==> {
                        let rec = records@[spec_last_index(records@, id)];
                        &&& session_for(list@, id).id@ == id
                        &&& session_for(list@, id).content == rec.content
                        &&& session_for(list@, id).update_time == rec.update_time
                        &&& content_view(rec) is Some
                        &&& hash_view(session_for(list@, id)) == Some(
                            spec_fingerprint(content_view(rec).unwrap()),
                        )
                    })
                &&& (forall|i: int| 0 <= i < records@.len() ==> records@[i].content is Some)
                &&& (forall|i: int|
                    0 <= i < list@.len() ==> (#[trigger] list@[i]).content is Some
                        && list@[i].hash is Some)
            },
            Err(e) => {
                &&& (exists|i: int| 0 <= i < records@.len() && records@[i].content is None)
                &&& e@ == "Missing session content"@
            },
        },
{
    let mut out: Vec<ChatSessionMetadata> = Vec::new();
    let mut k: usize = 0;
    while k < records.len()
        invariant
            0 <= k <= records@.len(),
            sorted_ids(out@),
            forall|id: Seq<char>|
                #[trigger] has_session(out@, id) <==> has_session(
                    records@.subrange(0, k as int),
                    id,
                ),
            forall|id: Seq<char>| #[trigger]
                has_session(records@.subrange(0, k as int), id) ==> {
                    let rec = records@[spec_last_index(records@.subrange(0, k as int), id)];
                    &&& session_for(out@, id).id@ == id
                    &&& session_for(out@, id).content == rec.content
                    &&& session_for(out@, id).update_time == rec.update_time
                    &&& content_view(rec) is Some
                    &&& hash_view(session_for(out@, id)) == Some(
                        spec_fingerprint(content_view(rec).unwrap()),
                    )
                },
            forall|i: int| 0 <= i < k ==> records@[i].content is Some,
        decreases records@.len() - k,
    {
        let ghost prefix = records@.subrange(0, k as int);
        let ghost prev = out@;
        let rec = &records[k];
        let content = match &rec.content {
            Some(c) => c,
            None => {
                return Err(String::from_str("Missing session content"));
            },
        };
        let fp = fingerprint(content.as_str());
        let entry = ChatSessionMetadata {
            hash: Some(fp),
            id: rec.id.clone(),
            update_time: rec.update_time,
            content: Some(content.clone()),
        };
        let ghost entry_g = entry;
        insert_sorted(&mut out, entry);
        proof {
            let prefix2 = records@.subrange(0, k as int + 1);
            let recv = records@[k as int];
            assert(prefix2 =~= prefix.push(recv));
            assert(entry_g.id@ == recv.id@);
            assert forall|id: Seq<char>|
                #[trigger] has_session(prefix2, id) <==> (has_session(prefix, id) || id
                    == recv.id@) by {
                if has_session(prefix2, id) {
                    let w = choose|i: int| 0 <= i < prefix2.len() && prefix2[i].id@ == id;
                    if w < prefix.len() {
                        assert(prefix[w].id@ == id);
                    }
                }
                if has_session(prefix, id) {
                    let w = choose|i: int| 0 <= i < prefix.len() && prefix[i].id@ == id;
                    assert(prefix2[w].id@ == id);
                }
                if id == recv.id@ {
                    assert(prefix2[prefix.len() as int].id@ == id);
                }
            }
            assert forall|id: Seq<char>| #[trigger]
                has_session(prefix2, id) implies {
                let r2 = records@[spec_last_index(prefix2, id)];
                &&& session_for(out@, id).id@ == id
                &&& session_for(out@, id).content == r2.content
                &&& session_for(out@, id).update_time == r2.update_time
                &&& content_view(r2) is Some
                &&& hash_view(session_for(out@, id)) == Some(
                    spec_fingerprint(content_view(r2).unwrap()),
                )
            } by {
                lemma_last_index_push(prefix, recv, id);
                if id == recv.id@ {
                    assert(spec_last_index(prefix2, id) == k as int);
                    assert(session_for(out@, id) == entry_g);
                } else {
                    assert(prefix2.len() == prefix.len() + 1);
                    assert(prefix2[prefix.len() as int].id@ == recv.id@);
                    assert(exists|i: int| 0 <= i < prefix2.len() && prefix2[i].id@ == id);
                    let w = choose|i: int| 0 <= i < prefix2.len() && prefix2[i].id@ == id;
                    assert(0 <= w < prefix2.len() && prefix2[w].id@ == id);
                    assert(w < prefix.len());
                    assert(prefix[w].id@ == id);
                    assert(has_session(prefix, id));
                    assert(has_session(prev, id));
                    lemma_last_index_props(prefix, id);
                    assert(session_for(out@, id) == session_for(prev, id));
                }
            }
        }
        k = k + 1;
    }
    proof {
        assert(records@.subrange(0, records@.len() as int) =~= records@);
        lemma_sorted_unique(out@);
        assert forall|i: int|
            0 <= i < out@.len() implies (#[trigger] out@[i]).content is Some && out@[i].hash
            is Some by {
            lemma_session_for_is(out@, i);
            assert(has_session(out@, out@[i].id@));
            assert(has_session(records@, out@[i].id@));
        }
    }
    Ok(out)
}

/// Bring a session list into canonical form: sorted by id, one entry per
/// id, a later entry overriding an earlier one with the same id.
pub fn sort_sessions(list: &Vec<ChatSessionMetadata>) -> (r: Vec<ChatSessionMetadata>)
    ensures
        spec_normalized(list@, r@),
{
    let mut out: Vec<ChatSessionMetadata> = Vec::new();
    let mut k: usize = 0;
    while k < list.len()
        invariant
            0 <= k <= list@.len(),
            sorted_ids(out@),
            forall|id: Seq<char>|
                #[trigger] has_session(out@, id) <==> has_session(list@.subrange(0, k as int), id),
            forall|id: Seq<char>| #[trigger]
                has_session(list@.subrange(0, k as int), id) ==> session_for(out@, id)
                    == list@[spec_last_index(list@.subrange(0, k as int), id)],
        decreases list@.len() - k,
    {
        let ghost prefix = list@.subrange(0, k as int);
        let ghost prev = out@;
        let entry = list[k].clone();
        let ghost entry_g = entry;
        insert_sorted(&mut out, entry);
        proof {
            let prefix2 = list@.subrange(0, k as int + 1);
            let recv = list@[k as int];
            assert(prefix2 =~= prefix.push(recv));
            assert(entry_g == recv);
            assert forall|id: Seq<char>|
                #[trigger] has_session(prefix2, id) <==> (has_session(prefix, id) || id
                    == recv.id@) by {
                if has_session(prefix2, id) {
                    let w = choose|i: int| 0 <= i < prefix2.len() && prefix2[i].id@ == id;
                    if w < prefix.len() {
                        assert(prefix[w].id@ == id);
                    }
                }
                if has_session(prefix, id) {
                    let w = choose|i: int| 0 <= i < prefix.len() && prefix[i].id@ == id;
                    assert(prefix2[w].id@ == id);
                }
                if id == recv.id@ {
                    assert(prefix2[prefix.len() as int].id@ == id);
                }
            }
            assert forall|id: Seq<char>| #[trigger]
                has_session(prefix2, id) implies session_for(out@, id) == list@[spec_last_index(
                prefix2,
                id,
            )] by {
                lemma_last_index_push(prefix, recv, id);
                if id == recv.id@ {
                    assert(spec_last_index(prefix2, id) == k as int);
                    assert(session_for(out@, id) == entry_g);
                } else {
                    let w = choose|i: int| 0 <= i < prefix2.len() && prefix2[i].id@ == id;
                    assert(w < prefix.len());
                    assert(prefix[w].id@ == id);
                    assert(has_session(prefix, id));
                    assert(has_session(prev, id));
                    lemma_last_index_props(prefix, id);
                    assert(session_for(out@, id) == session_for(prev, id));
                }
            }
        }
        k = k + 1;
    }
    proof {
        assert(list@.subrange(0, list@.len() as int) =~= list@);
    }
    out
}

/// Relies on `std::time::SystemTime::now` and `duration_since`: the
/// current wall-clock time in milliseconds since the Unix epoch, or zero
/// when the clock reads before the epoch. Nothing can be promised of a
/// clock reading.
#[verifier::external_body]
pub(crate) fn now_millis() -> u64 {
    match std::time::SystemTime::now().duration_since(std::time::UNIX_EPOCH) {
        Ok(d) => d.as_millis() as u64,
        Err(_) => 0,
    }
}

/// Build the manifest describing the given local session records:
/// fingerprint every record's content, keep the last record per id,
/// sorted by id, compute the aggregate fingerprint over the canonical
/// encoding, and stamp the build time. The aggregate fingerprint is
/// never empty, so a built manifest is never mistaken for the
/// absent-remote sentinel.
pub fn build_sync_metadata(records: &Vec<ChatSessionMetadata>, now_ms: u64) -> (r: Result<
    SyncMetadata,
    String,
>)
    ensures
        match r {
            Ok(m) => {
                &&& spec_built_manifest(records@, m)
                &&& m.last_sync == now_ms
                &&& (forall|i: int| 0 <= i < records@.len() ==> records@[i].content is Some)
            },
            Err(e) => {
                &&& (exists|i: int| 0 <= i < records@.len() && records@[i].content is None)
                &&& e@ == "Missing session content"@
            },
        },
{
    let sessions = match build_session_metadata(records) {
        Ok(s) => s,
        Err(e) => {
            return Err(e);
        },
    };
    let hash = crate::codec::aggregate_fingerprint(&sessions);
    Ok(SyncMetadata { hash, last_sync: now_ms, chat_session: sessions })
}

/// Inserting at the position where everything before sorts below the new
/// id and everything at or after sorts above keeps the list sorted.
proof fn lemma_insert_position_sorted(s: Seq<ChatSessionMetadata>, v: ChatSessionMetadata, p: int)
    requires
        sorted_ids(s),
        0 <= p <= s.len(),
        forall|j: int| 0 <= j < p ==> id_lt(s[j].id@, v.id@),
        p < s.len() ==> id_lt(v.id@, s[p].id@),
    ensures
        sorted_ids(s.insert(p, v)),
{
    let post = s.insert(p, v);
    assert forall|x: int, y: int| 0 <= x < y < post.len() implies id_lt(post[x].id@, post[y].id@) by {
        if x < p && y < p {
            assert(post[x] == s[x] && post[y] == s[y]);
        } else if x < p && y == p {
            assert(post[x] == s[x]);
        } else if x < p && y > p {
            assert(post[x] == s[x] && post[y] == s[y - 1]);
        } else if x == p && y > p {
            assert(post[y] == s[y - 1]);
            if y - 1 == p {
            } else {
                assert(id_lt(v.id@, s[p].id@));
                assert(id_lt(s[p].id@, s[y - 1].id@));
                lemma_bytes_lt_transitive(
                    encode_utf8(v.id@),
                    encode_utf8(s[p].id@),
                    encode_utf8(s[y - 1].id@),
                );
            }
        } else {
            assert(post[x] == s[x - 1] && post[y] == s[y - 1]);
        }
    }
}

} // verus!
