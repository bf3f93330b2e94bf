//! Canonical wire encoding of the manifest.
//!
//! The manifest travels as one JSON object: `hash`, `last_sync`, and the
//! `chat_session` map with one entry per session, keyed by id. The
//! encoding is canonical — object keys in a fixed order, sessions sorted
//! by id, no whitespace — so that the aggregate fingerprint computed
//! over it depends only on what the manifest says, never on the order
//! the local store happened to hand its records out in. The aggregate
//! fingerprint is computed over the encoding with the hash field empty
//! and the build time zeroed, so the fingerprint covers the sessions
//! alone.

use vstd::prelude::*;

verus! {

use vstd::utf8::encode_utf8;
use crate::fingerprint::spec_hex_digit;
use crate::fingerprint::spec_hex_encode;
use crate::fingerprint::sha256_of;
use crate::fingerprint::fingerprint_bytes;
use crate::metadata::ChatSessionMetadata;
use crate::metadata::SyncMetadata;
use crate::metadata::session_view;
use crate::metadata::hash_view;
use crate::metadata::has_session;
use crate::metadata::session_for;
use crate::metadata::sorted_ids;
use crate::metadata::id_lt;
use crate::metadata::lemma_sorted_unique;
use crate::metadata::lemma_session_for_is;
use crate::metadata::lemma_bytes_lt_transitive;
use crate::metadata::lemma_bytes_lt_irreflexive;

/// How one byte of a string travels inside a JSON string literal: quote
/// and backslash are escaped, control bytes take the `\u00XX` form, and
/// every other byte (including every byte of a multi-byte UTF-8
/// character) stands for itself.
pub open spec fn spec_escape_byte(b: u8) -> Seq<u8> {
    if b == 0x22 {
        seq![0x5cu8, 0x22u8]
    } else if b == 0x5c {
        seq![0x5cu8, 0x5cu8]
    } else if b < 0x20 {
        seq![
            0x5cu8,
            0x75u8,
            0x30u8,
            0x30u8,
            spec_hex_digit((b / 16) as u8),
            spec_hex_digit((b % 16) as u8),
        ]
    } else {
        seq![b]
    }
}

pub open spec fn spec_escape_bytes(s: Seq<u8>) -> Seq<u8>
    decreases s.len(),
{
    if s.len() == 0 {
        Seq::<u8>::empty()
    } else {
        spec_escape_byte(s[0]) + spec_escape_bytes(s.drop_first())
    }
}

/// A string as it travels on the wire: double-quoted, escaped UTF-8.
pub open spec fn spec_quoted(s: Seq<char>) -> Seq<u8> {
    seq![0x22u8] + spec_escape_bytes(encode_utf8(s)) + seq![0x22u8]
}

/// A number as it travels on the wire: decimal digits, no sign, no
/// leading zeros.
pub open spec fn spec_dec(n: u64) -> Seq<u8>
    decreases n,
{
    if n < 10 {
        seq![(0x30 + n) as u8]
    } else {
        spec_dec((n / 10) as u64) + seq![(0x30 + (n % 10)) as u8]
    }
}

/// The fingerprint field of a session on the wire: the empty string
/// until a fingerprint was computed.
pub open spec fn spec_hash_text(h: Option<String>) -> Seq<char> {
    match h {
        Some(s) => s@,
        None => Seq::<char>::empty(),
    }
}

/// One session as it travels inside the manifest. The content field
/// never travels.
pub open spec fn spec_encode_session(s: ChatSessionMetadata) -> Seq<u8> {
    encode_utf8("{\"hash\":"@) + spec_quoted(spec_hash_text(s.hash)) + encode_utf8(",\"id\":"@)
        + spec_quoted(s.id@) + (match s.update_time {
        Some(t) => encode_utf8(",\"updateTime\":"@) + spec_dec(t),
        None => Seq::<u8>::empty(),
    }) + encode_utf8("}"@)
}

/// The entries of the `chat_session` object, comma-separated, keyed by
/// id, in list order.
pub open spec fn spec_encode_entries(list: Seq<ChatSessionMetadata>) -> Seq<u8>
    decreases list.len(),
{
    if list.len() == 0 {
        Seq::<u8>::empty()
    } else if list.len() == 1 {
        spec_quoted(list[0].id@) + encode_utf8(":"@) + spec_encode_session(list[0])
    } else {
        spec_encode_entries(list.drop_last()) + encode_utf8(","@) + spec_quoted(list.last().id@)
            + encode_utf8(":"@) + spec_encode_session(list.last())
    }
}

/// The whole manifest on the wire.
pub open spec fn spec_encode_manifest(
    hash: Seq<char>,
    last_sync: u64,
    sessions: Seq<ChatSessionMetadata>,
) -> Seq<u8> {
    encode_utf8("{\"hash\":"@) + spec_quoted(hash) + encode_utf8(",\"last_sync\":"@) + spec_dec(
        last_sync,
    ) + encode_utf8(",\"chat_session\":{"@) + spec_encode_entries(sessions) + encode_utf8("}}"@)
}

/// The aggregate fingerprint of a manifest: the fingerprint of the
/// canonical encoding taken with an empty hash field and a zeroed build
/// time, so it covers the sessions alone.
pub open spec fn spec_aggregate_fingerprint(sessions: Seq<ChatSessionMetadata>) -> Seq<char> {
    spec_hex_encode(sha256_of(spec_encode_manifest(Seq::<char>::empty(), 0, sessions)))
}

fn hex_digit(n: u8) -> (r: u8)
    requires
        n < 16,
    ensures
        r == spec_hex_digit(n),
{
    if n < 10 {
        0x30 + n
    } else {
        0x57 + n
    }
}

fn push_bytes(out: &mut Vec<u8>, s: &[u8])
    ensures
        final(out)@ == old(out)@ + s@,
{
    let ghost base = out@;
    let mut i: usize = 0;
    while i < s.len()
        invariant
            0 <= i <= s@.len(),
            base == old(out)@,
            out@ == base + s@.subrange(0, i as int),
        decreases s@.len() - i,
    {
        out.push(s[i]);
        proof {
            assert(base + s@.subrange(0, i as int + 1) =~= (base + s@.subrange(0, i as int)).push(
                s@[i as int],
            ));
        }
        i = i + 1;
    }
    proof {
        assert(s@.subrange(0, s@.len() as int) =~= s@);
    }
}

proof fn lemma_escape_push(s: Seq<u8>, b: u8)
    ensures
        spec_escape_bytes(s.push(b)) == spec_escape_bytes(s) + spec_escape_byte(b),
    decreases s.len(),
{
    let s2 = s.push(b);
    if s.len() == 0 {
        assert(s2.drop_first() =~= Seq::<u8>::empty());
        assert(spec_escape_bytes(s2) == spec_escape_byte(b) + spec_escape_bytes(s2.drop_first()));
        assert(spec_escape_byte(b) + Seq::<u8>::empty() =~= spec_escape_byte(b));
        assert(spec_escape_bytes(s) + spec_escape_byte(b) =~= spec_escape_byte(b));
    } else {
        assert(s2.drop_first() =~= s.drop_first().push(b));
        lemma_escape_push(s.drop_first(), b);
        assert(spec_escape_byte(s2[0]) + (spec_escape_bytes(s.drop_first()) + spec_escape_byte(b))
            =~= (spec_escape_byte(s[0]) + spec_escape_bytes(s.drop_first())) + spec_escape_byte(b));
    }
}

fn push_escaped(out: &mut Vec<u8>, s: &[u8])
    ensures
        final(out)@ == old(out)@ + spec_escape_bytes(s@),
{
    let ghost base = out@;
    let mut i: usize = 0;
    while i < s.len()
        invariant
            0 <= i <= s@.len(),
            base == old(out)@,
            out@ == base + spec_escape_bytes(s@.subrange(0, i as int)),
        decreases s@.len() - i,
    {
        let b = s[i];
        if b == 0x22 {
            out.push(0x5c);
            out.push(0x22);
        } else if b == 0x5c {
            out.push(0x5c);
            out.push(0x5c);
        } else if b < 0x20 {
            out.push(0x5c);
            out.push(0x75);
            out.push(0x30);
            out.push(0x30);
            out.push(hex_digit(b / 16));
            out.push(hex_digit(b % 16));
        } else {
            out.push(b);
        }
        proof {
            let pre = s@.subrange(0, i as int);
            assert(s@.subrange(0, i as int + 1) =~= pre.push(s@[i as int]));
            lemma_escape_push(pre, s@[i as int]);
            assert(out@ =~= base + spec_escape_bytes(s@.subrange(0, i as int + 1)));
        }
        i = i + 1;
    }
    proof {
        assert(s@.subrange(0, s@.len() as int) =~= s@);
    }
}

fn push_quoted(out: &mut Vec<u8>, s: &str)
    ensures
        final(out)@ == old(out)@ + spec_quoted(s@),
{
    out.push(0x22);
    push_escaped(out, s.as_bytes());
    out.push(0x22);
    proof {
        assert(final(out)@ =~= old(out)@ + spec_quoted(s@));
    }
}

fn push_dec(out: &mut Vec<u8>, n: u64)
    ensures
        final(out)@ == old(out)@ + spec_dec(n),
    decreases n,
{
    if n < 10 {
        out.push(0x30 + n as u8);
        proof {
            assert(final(out)@ =~= old(out)@ + spec_dec(n));
        }
    } else {
        push_dec(out, n / 10);
        out.push(0x30 + (n % 10) as u8);
        proof {
            assert(final(out)@ =~= old(out)@ + spec_dec(n));
        }
    }
}

fn push_session(out: &mut Vec<u8>, s: &ChatSessionMetadata)
    ensures
        final(out)@ == old(out)@ + spec_encode_session(*s),
{
    push_bytes(out, "{\"hash\":".as_bytes());
    match &s.hash {
        Some(h) => push_quoted(out, h.as_str()),
        None => {
            proof {
                reveal_strlit("");
                assert(""@ =~= Seq::<char>::empty());
            }
            push_quoted(out, "");
        },
    }
    push_bytes(out, ",\"id\":".as_bytes());
    push_quoted(out, s.id.as_str());
    match s.update_time {
        Some(t) => {
            push_bytes(out, ",\"updateTime\":".as_bytes());
            push_dec(out, t);
        },
        None => {},
    }
    push_bytes(out, "}".as_bytes());
    proof {
        assert(final(out)@ =~= old(out)@ + spec_encode_session(*s));
    }
}

/// Encode a manifest given as its parts.
pub fn encode_manifest_parts(
    hash: &str,
    last_sync: u64,
    sessions: &Vec<ChatSessionMetadata>,
) -> (r: Vec<u8>)
    ensures
        r@ == spec_encode_manifest(hash@, last_sync, sessions@),
{
    let mut out: Vec<u8> = Vec::new();
    push_bytes(&mut out, "{\"hash\":".as_bytes());
    push_quoted(&mut out, hash);
    push_bytes(&mut out, ",\"last_sync\":".as_bytes());
    push_dec(&mut out, last_sync);
    push_bytes(&mut out, ",\"chat_session\":{".as_bytes());
    let ghost mid = out@;
    let mut i: usize = 0;
    while i < sessions.len()
        invariant
            0 <= i <= sessions@.len(),
            mid == spec_encode_manifest_prefix(hash@, last_sync),
            out@ == mid + spec_encode_entries(sessions@.subrange(0, i as int)),
        decreases sessions@.len() - i,
    {
        if i > 0 {
            push_bytes(&mut out, ",".as_bytes());
        }
        push_quoted(&mut out, sessions[i].id.as_str());
        push_bytes(&mut out, ":".as_bytes());
        push_session(&mut out, &sessions[i]);
        proof {
            let pre = sessions@.subrange(0, i as int);
            let pre2 = sessions@.subrange(0, i as int + 1);
            assert(pre2.drop_last() =~= pre);
            assert(pre2.last() == sessions@[i as int]);
            assert(out@ =~= mid + spec_encode_entries(pre2));
        }
        i = i + 1;
    }
    proof {
        assert(sessions@.subrange(0, sessions@.len() as int) =~= sessions@);
    }
    push_bytes(&mut out, "}}".as_bytes());
    proof {
        assert(out@ =~= spec_encode_manifest(hash@, last_sync, sessions@));
    }
    out
}

/// The encoding of everything before the `chat_session` entries.
pub open spec fn spec_encode_manifest_prefix(hash: Seq<char>, last_sync: u64) -> Seq<u8> {
    encode_utf8("{\"hash\":"@) + spec_quoted(hash) + encode_utf8(",\"last_sync\":"@) + spec_dec(
        last_sync,
    ) + encode_utf8(",\"chat_session\":{"@)
}

/// Encode a manifest as it is uploaded to the remote provider.
pub fn encode_manifest(m: &SyncMetadata) -> (r: Vec<u8>)
    ensures
        r@ == spec_encode_manifest(m.hash@, m.last_sync, m.chat_session@),
{
    encode_manifest_parts(m.hash.as_str(), m.last_sync, &m.chat_session)
}

proof fn lemma_encode_entries_congruent(s1: Seq<ChatSessionMetadata>, s2: Seq<ChatSessionMetadata>)
    requires
        s1.len() == s2.len(),
        forall|i: int|
            0 <= i < s1.len() ==> #[trigger] session_view(s1[i]) == session_view(s2[i]),
    ensures
        spec_encode_entries(s1) == spec_encode_entries(s2),
    decreases s1.len(),
{
    if s1.len() == 0 {
    } else {
        let a = s1[s1.len() - 1];
        let b = s2[s2.len() - 1];
        assert(session_view(a) == session_view(b));
        assert(a.id@ == b.id@ && hash_view(a) == hash_view(b) && a.update_time == b.update_time);
        assert(spec_hash_text(a.hash) == spec_hash_text(b.hash));
        assert(spec_encode_session(a) == spec_encode_session(b));
        if s1.len() > 1 {
            assert(forall|i: int|
                0 <= i < s1.drop_last().len() ==> #[trigger] session_view(s1.drop_last()[i])
                    == session_view(s2.drop_last()[i]));
            lemma_encode_entries_congruent(s1.drop_last(), s2.drop_last());
        }
    }
}

proof fn lemma_canonical_views_unique(s1: Seq<ChatSessionMetadata>, s2: Seq<ChatSessionMetadata>)
    requires
        sorted_ids(s1),
        sorted_ids(s2),
        forall|id: Seq<char>| #[trigger] has_session(s1, id) <==> has_session(s2, id),
        forall|id: Seq<char>| #[trigger]
            has_session(s1, id) ==> session_view(session_for(s1, id)) == session_view(
                session_for(s2, id),
            ),
    ensures
        s1.len() == s2.len(),
        forall|i: int|
            0 <= i < s1.len() ==> #[trigger] session_view(s1[i]) == session_view(s2[i]),
    decreases s1.len(),
{
    lemma_sorted_unique(s1);
    lemma_sorted_unique(s2);
    if s1.len() == 0 {
        if s2.len() > 0 {
            assert(has_session(s2, s2[0].id@));
            assert(has_session(s1, s2[0].id@));
        }
    } else {
        assert(has_session(s1, s1[0].id@));
        if s2.len() == 0 {
            assert(has_session(s2, s1[0].id@));
            assert(false);
        }
        let id1 = s1[0].id@;
        let id2 = s2[0].id@;
        if id1 != id2 {
            assert(has_session(s2, id1));
            let j = choose|j: int| 0 <= j < s2.len() && s2[j].id@ == id1;
            assert(j != 0);
            assert(id_lt(id2, id1));
            assert(has_session(s2, id2));
            assert(has_session(s1, id2));
            let k = choose|k: int| 0 <= k < s1.len() && s1[k].id@ == id2;
            assert(k != 0);
            assert(id_lt(id1, id2));
            lemma_bytes_lt_transitive(encode_utf8(id1), encode_utf8(id2), encode_utf8(id1));
            lemma_bytes_lt_irreflexive(encode_utf8(id1));
        }
        lemma_session_for_is(s1, 0);
        lemma_session_for_is(s2, 0);
        assert(session_view(s1[0]) == session_view(s2[0]));
        let t1 = s1.drop_first();
        let t2 = s2.drop_first();
        assert forall|x: int, y: int| 0 <= x < y < t1.len() implies id_lt(
            t1[x].id@,
            t1[y].id@,
        ) by {
            assert(t1[x] == s1[x + 1] && t1[y] == s1[y + 1]);
        }
        assert forall|x: int, y: int| 0 <= x < y < t2.len() implies id_lt(
            t2[x].id@,
            t2[y].id@,
        ) by {
            assert(t2[x] == s2[x + 1] && t2[y] == s2[y + 1]);
        }
        assert forall|id: Seq<char>| #[trigger]
            has_session(t1, id) implies (has_session(s1, id) && id != id1) by {
            let w = choose|w: int| 0 <= w < t1.len() && t1[w].id@ == id;
            assert(s1[w + 1].id@ == id);
            assert(s1[0].id@ != s1[w + 1].id@);
        }
        assert forall|id: Seq<char>|
            has_session(s1, id) && id != id1 implies #[trigger] has_session(t1, id) by {
            let w = choose|w: int| 0 <= w < s1.len() && s1[w].id@ == id;
            assert(w != 0);
            assert(t1[w - 1].id@ == id);
        }
        assert forall|id: Seq<char>| #[trigger]
            has_session(t2, id) implies (has_session(s2, id) && id != id1) by {
            let w = choose|w: int| 0 <= w < t2.len() && t2[w].id@ == id;
            assert(s2[w + 1].id@ == id);
            assert(s2[0].id@ != s2[w + 1].id@);
        }
        assert forall|id: Seq<char>|
            has_session(s2, id) && id != id1 implies #[trigger] has_session(t2, id) by {
            let w = choose|w: int| 0 <= w < s2.len() && s2[w].id@ == id;
            assert(w != 0);
            assert(t2[w - 1].id@ == id);
        }
        assert forall|id: Seq<char>| #[trigger]
            has_session(t1, id) implies session_view(session_for(t1, id)) == session_view(
            session_for(t2, id),
        ) by {
            let w = choose|w: int| 0 <= w < t1.len() && t1[w].id@ == id;
            assert(s1[w + 1].id@ == id);
            assert forall|x: int, y: int| 0 <= x < y < t1.len() implies t1[x].id@ != t1[y].id@ by {
                assert(t1[x] == s1[x + 1] && t1[y] == s1[y + 1]);
            }
            lemma_session_for_is(t1, w);
            lemma_session_for_is(s1, w + 1);
            assert(has_session(t2, id));
            let v = choose|v: int| 0 <= v < t2.len() && t2[v].id@ == id;
            assert(s2[v + 1].id@ == id);
            assert forall|x: int, y: int| 0 <= x < y < t2.len() implies t2[x].id@ != t2[y].id@ by {
                assert(t2[x] == s2[x + 1] && t2[y] == s2[y + 1]);
            }
            lemma_session_for_is(t2, v);
            lemma_session_for_is(s2, v + 1);
        }
        lemma_canonical_views_unique(t1, t2);
        assert forall|i: int|
            0 <= i < s1.len() implies #[trigger] session_view(s1[i]) == session_view(s2[i]) by {
            if i > 0 {
                assert(t1[i - 1] == s1[i] && t2[i - 1] == s2[i]);
                assert(session_view(t1[i - 1]) == session_view(t2[i - 1]));
            }
        }
    }
}

/// Aggregate-fingerprint determinism: two sorted manifests that describe
/// the same sessions — the same ids and, for each id, the same
/// fingerprint and timestamp — carry the same aggregate fingerprint,
/// whichever order their sources listed the sessions in and whatever
/// their build times were.
pub proof fn lemma_aggregate_fingerprint_deterministic(
    s1: Seq<ChatSessionMetadata>,
    s2: Seq<ChatSessionMetadata>,
)
    requires
        sorted_ids(s1),
        sorted_ids(s2),
        forall|id: Seq<char>| #[trigger] has_session(s1, id) <==> has_session(s2, id),
        forall|id: Seq<char>| #[trigger]
            has_session(s1, id) ==> session_view(session_for(s1, id)) == session_view(
                session_for(s2, id),
            ),
    ensures
        spec_aggregate_fingerprint(s1) == spec_aggregate_fingerprint(s2),
{
    lemma_canonical_views_unique(s1, s2);
    lemma_encode_entries_congruent(s1, s2);
}

/// The aggregate fingerprint of a session list: the fingerprint of the
/// canonical manifest encoding with the hash field empty and the build
/// time zeroed.
pub fn aggregate_fingerprint(sessions: &Vec<ChatSessionMetadata>) -> (r: String)
    ensures
        r@ == spec_aggregate_fingerprint(sessions@),
        r@.len() == 64,
{
    proof {
        reveal_strlit("");
        assert(""@ =~= Seq::<char>::empty());
    }
    let encoded = encode_manifest_parts("", 0, sessions);
    fingerprint_bytes(encoded.as_slice())
}

} // verus!
