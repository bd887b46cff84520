//! Resolution of a full or abbreviated commit hash against the checkpoint
//! history.

use vstd::prelude::*;
use vstd::utf8::encode_utf8;
use crate::error::{CheckpointError, HashCandidate};
use crate::text::{opt_view, first_line, first_line_of, has_prefix, starts_with, take_chars, take_chars_of};

verus! {

/// Length of a full commit hash, in characters.
pub const FULL_HASH_LEN: usize = 40;

/// Length of the short hash shown to users.
pub const SHORT_HASH_LEN: usize = 7;

/// How many candidates an ambiguity report lists by default.
pub const DEFAULT_CANDIDATE_CAP: usize = 5;

/// A commit of the checkpoint history, as the backend reports it.
#[derive(Debug, Clone)]
pub struct CommitRecord {
    /// The full hash, as hexadecimal text.
    pub hash: String,
    /// The message, where it is valid UTF-8.
    pub message: Option<String>,
    /// The commit time, in seconds since the Unix epoch.
    pub time: i64,
}

/// The hashes of `history`, in order.
pub open spec fn hashes_of(history: Seq<CommitRecord>) -> Seq<Seq<char>> {
    history.map_values(|r: CommitRecord| r.hash@)
}

/// The indices, in increasing order, of the hashes in `hashes` that start with `q`.
pub open spec fn matching_indices(hashes: Seq<Seq<char>>, q: Seq<char>) -> Seq<int>
    decreases hashes.len(),
{
    if hashes.len() == 0 {
        Seq::empty()
    } else {
        let rest = matching_indices(hashes.drop_last(), q);
        if has_prefix(hashes.last(), q) {
            rest.push(hashes.len() - 1)
        } else {
            rest
        }
    }
}

/// A query of the length for a prefix search: 2 to 39 bytes in UTF-8 (the
/// byte count as `str::len` reports it).
pub open spec fn is_prefix_query(q: Seq<char>) -> bool {
    2 <= (encode_utf8(q).len() as usize) < FULL_HASH_LEN
}

/// The first line of a message, or the text used where there is none.
pub open spec fn summary_line(message: Option<Seq<char>>) -> Seq<char> {
    match message {
        Some(m) => match first_line(m) {
            Some(l) => l,
            None => no_message_text(),
        },
        None => no_message_text(),
    }
}

pub open spec fn no_message_text() -> Seq<char> {
    "No message"@
}

/// What a candidate of an ambiguity report shows of a commit.
pub open spec fn candidate_of(r: CommitRecord) -> (Seq<char>, Seq<char>) {
    (take_chars(r.hash@, SHORT_HASH_LEN as nat), summary_line(opt_view(r.message)))
}

pub open spec fn candidate_view(c: HashCandidate) -> (Seq<char>, Seq<char>) {
    (c.short_hash@, c.summary@)
}

pub open spec fn min_nat(a: nat, b: nat) -> nat {
    if a <= b {
        a
    } else {
        b
    }
}

proof fn lemma_matching_indices(hashes: Seq<Seq<char>>, q: Seq<char>)
    ensures
        forall|k: int|
            0 <= k < matching_indices(hashes, q).len() ==> 0 <= #[trigger] matching_indices(
                hashes,
                q,
            )[k] < hashes.len() && has_prefix(hashes[matching_indices(hashes, q)[k]], q),
        forall|j: int|
            0 <= j < hashes.len() && has_prefix(#[trigger] hashes[j], q) ==> matching_indices(
                hashes,
                q,
            ).contains(j),
        forall|a: int, b: int|
            0 <= a < b < matching_indices(hashes, q).len() ==> #[trigger] matching_indices(
                hashes,
                q,
            )[a] < #[trigger] matching_indices(hashes, q)[b],
    decreases hashes.len(),
{
    if hashes.len() > 0 {
        let d = hashes.drop_last();
        lemma_matching_indices(d, q);
        let rest = matching_indices(d, q);
        assert forall|j: int| 0 <= j < hashes.len() && has_prefix(#[trigger] hashes[j], q) implies matching_indices(
            hashes,
            q,
        ).contains(j) by {
            if j < hashes.len() - 1 {
                assert(d[j] == hashes[j]);
                let k = choose|k: int| 0 <= k < rest.len() && rest[k] == j;
                if has_prefix(hashes.last(), q) {
                    assert(matching_indices(hashes, q)[k] == j);
                }
            } else {
                let m = matching_indices(hashes, q);
                assert(m[m.len() - 1] == j);
            }
        }
    }
}

/// Finds the only commit of `history` (newest first) whose hash starts with
/// `query`. A query of under 2 or over 39 bytes is refused; several matches
/// are reported with the first `cap` of them, in history order.
pub fn resolve_prefix(query: &str, history: &Vec<CommitRecord>, cap: usize) -> (r: Result<
    usize,
    CheckpointError,
>)
    ensures
        !is_prefix_query(query@) ==> (r matches Err(CheckpointError::InvalidHash(q)) && q@
            == query@),
        is_prefix_query(query@) ==> {
            let h = hashes_of(history@);
            let m = matching_indices(h, query@);
            &&& (r matches Ok(i) <==> m.len() == 1)
            &&& r matches Ok(i) ==> i == m[0] && has_prefix(h[i as int], query@) && forall|j: int|
                0 <= j < h.len() && has_prefix(h[j], query@) ==> j == i
            &&& (r matches Err(CheckpointError::CheckpointNotFound(q)) <==> m.len() == 0)
            &&& r matches Err(CheckpointError::CheckpointNotFound(q)) ==> q@ == query@ && forall|
                j: int,
            |
                0 <= j < h.len() ==> !has_prefix(#[trigger] h[j], query@)
            &&& (r matches Err(CheckpointError::AmbiguousHash { .. }) <==> m.len() > 1)
            &&& r matches Err(
                CheckpointError::AmbiguousHash { query: q, candidates, remaining },
            ) ==> {
                let shown = min_nat(cap as nat, m.len());
                &&& q@ == query@
                &&& candidates@.len() == shown
                &&& forall|t: int|
                    0 <= t < shown ==> candidate_view(#[trigger] candidates@[t]) == candidate_of(
                        history@[m[t]],
                    )
                &&& remaining == m.len() - shown
                &&& exists|a: int, b: int|
                    0 <= a < b < h.len() && has_prefix(#[trigger] h[a], query@) && has_prefix(
                        #[trigger] h[b],
                        query@,
                    )
            }
        },
{
    let qlen = query.len();
    if qlen < 2 || qlen >= FULL_HASH_LEN {
        return Err(CheckpointError::InvalidHash(String::from_str(query)));
    }
    let ghost h = hashes_of(history@);
    let mut found: Vec<usize> = Vec::new();
    let mut k: usize = 0;
    while k < history.len()
        invariant
            k <= history@.len(),
            h == hashes_of(history@),
            found@.map_values(|i: usize| i as int) == matching_indices(h.subrange(0, k as int), query@),
        decreases history@.len() - k,
    {
        let ghost before = found@;
        if starts_with(history[k].hash.as_str(), query) {
            found.push(k);
            assert(found@.map_values(|i: usize| i as int) =~= before.map_values(|i: usize| i as int).push(k as int));
        }
        assert(h.subrange(0, k + 1).drop_last() =~= h.subrange(0, k as int));
        k = k + 1;
    }
    assert(h.subrange(0, history@.len() as int) =~= h);
    let ghost m = matching_indices(h, query@);
    proof {
        lemma_matching_indices(h, query@);
    }
    assert(found@.len() == m.len());
    if found.len() == 0 {
        assert forall|j: int| 0 <= j < h.len() implies !has_prefix(#[trigger] h[j], query@) by {
            if has_prefix(h[j], query@) {
                assert(m.contains(j));
            }
        }
        Err(CheckpointError::CheckpointNotFound(String::from_str(query)))
    } else if found.len() == 1 {
        assert(found[0] as int == m[0]);
        assert forall|j: int| 0 <= j < h.len() && has_prefix(h[j], query@) implies j == found[0] by {
            assert(m.contains(j));
        }
        Ok(found[0])
    } else {
        let shown = if cap < found.len() {
            cap
        } else {
            found.len()
        };
        let mut candidates: Vec<HashCandidate> = Vec::new();
        let mut t: usize = 0;
        while t < shown
            invariant
                t <= shown <= found@.len(),
                shown == min_nat(cap as nat, m.len()),
                found@.map_values(|i: usize| i as int) == m,
                forall|k: int| 0 <= k < m.len() ==> 0 <= #[trigger] m[k] < history@.len(),
                candidates@.len() == t,
                forall|u: int|
                    0 <= u < t ==> candidate_view(#[trigger] candidates@[u]) == candidate_of(
                        history@[m[u]],
                    ),
            decreases shown - t,
        {
            let i = found[t];
            assert(i as int == m[t as int]);
            let rec = &history[i];
            let short_hash = take_chars_of(rec.hash.as_str(), SHORT_HASH_LEN);
            let summary = summary_text(&rec.message);
            candidates.push(HashCandidate { short_hash, summary });
            t = t + 1;
        }
        assert(0 <= m[0] < m[1]);
        Err(
            CheckpointError::AmbiguousHash {
                query: String::from_str(query),
                candidates,
                remaining: found.len() - shown,
            },
        )
    }
}

/// The first line of an optional message, or the text used where there is none.
pub fn summary_text(message: &Option<String>) -> (r: String)
    ensures
        r@ == summary_line(opt_view(*message)),
{
    match message {
        Some(m) => match first_line_of(m.as_str()) {
            Some(l) => l,
            None => no_message(),
        },
        None => no_message(),
    }
}

fn no_message() -> (r: String)
    ensures
        r@ == no_message_text(),
{
    String::from_str("No message")
}

} // verus!
