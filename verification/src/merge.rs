//! The directory merger: the per-family socket lists are concatenated, stably
//! sorted by the composite (port, process identifier) key, adjacent entries
//! equal on that key are removed keeping the first of each run, and the
//! result is therefore in non-decreasing port order with no two entries
//! sharing both port and process identifier.
use vstd::prelude::*;

use crate::socket::ListeningSocket;

verus! {

/// Two entries agree on the composite (port, pid) key.
pub open spec fn same_key(a: ListeningSocket, b: ListeningSocket) -> bool {
    a.port == b.port && a.pid == b.pid
}

/// Non-strict lexicographic order on the composite (port, pid) key.
pub open spec fn le_key(a: ListeningSocket, b: ListeningSocket) -> bool {
    a.port < b.port || (a.port == b.port && a.pid <= b.pid)
}

/// Strict lexicographic order on the composite (port, pid) key.
pub open spec fn lt_key(a: ListeningSocket, b: ListeningSocket) -> bool {
    a.port < b.port || (a.port == b.port && a.pid < b.pid)
}

/// The sequence is non-decreasing in the composite key (hence in the port).
pub open spec fn sorted_by_key(s: Seq<ListeningSocket>) -> bool {
    forall|i: int, j: int| 0 <= i < j < s.len() ==> le_key(s[i], s[j])
}

/// No two entries of the sequence share both port and process identifier.
pub open spec fn unique_keys(s: Seq<ListeningSocket>) -> bool {
    forall|i: int, j: int| 0 <= i < j < s.len() ==> !same_key(s[i], s[j])
}

/// Stable insertion: `e` goes in front of the first element strictly greater
/// than it, so after every element less than or equal to it.
pub open spec fn insert_sorted(s: Seq<ListeningSocket>, e: ListeningSocket) -> Seq<ListeningSocket>
    decreases s.len(),
{
    if s.len() == 0 {
        seq![e]
    } else if lt_key(e, s[0]) {
        seq![e] + s
    } else {
        seq![s[0]] + insert_sorted(s.drop_first(), e)
    }
}

/// Stable insertion sort by the composite key, processing left to right.
pub open spec fn sort_by_key(s: Seq<ListeningSocket>) -> Seq<ListeningSocket>
    decreases s.len(),
{
    if s.len() == 0 {
        Seq::empty()
    } else {
        insert_sorted(sort_by_key(s.drop_last()), s.last())
    }
}

/// Removal of adjacent entries equal on the composite key, keeping the first
/// entry of each run.
pub open spec fn dedup_keys(s: Seq<ListeningSocket>) -> Seq<ListeningSocket>
    decreases s.len(),
{
    if s.len() == 0 {
        Seq::empty()
    } else {
        let p = dedup_keys(s.drop_last());
        if p.len() > 0 && same_key(p.last(), s.last()) {
            p
        } else {
            p.push(s.last())
        }
    }
}

/// The merged, deduplicated, port-ordered directory built from a combined
/// sequence of per-family entries.
pub open spec fn merged_directory(s: Seq<ListeningSocket>) -> Seq<ListeningSocket> {
    dedup_keys(sort_by_key(s))
}

/// Some entry of the sequence shares the composite key of `e`.
pub open spec fn has_key(s: Seq<ListeningSocket>, e: ListeningSocket) -> bool {
    exists|m: int| 0 <= m < s.len() && same_key(e, s[m])
}

/// Where the stable insertion places `e`: the index of the first element of
/// `s` strictly greater than `e`, or the length when there is none.
pub open spec fn insert_pos(s: Seq<ListeningSocket>, e: ListeningSocket) -> int
    decreases s.len(),
{
    if s.len() == 0 {
        0
    } else if lt_key(e, s[0]) {
        0
    } else {
        1 + insert_pos(s.drop_first(), e)
    }
}

proof fn lemma_insert_pos_facts(s: Seq<ListeningSocket>, e: ListeningSocket)
    ensures
        0 <= insert_pos(s, e) <= s.len(),
        forall|m: int| 0 <= m < insert_pos(s, e) ==> !lt_key(e, s[m]),
        insert_pos(s, e) < s.len() ==> lt_key(e, s[insert_pos(s, e)]),
    decreases s.len(),
{
    if s.len() > 0 && !lt_key(e, s[0]) {
        lemma_insert_pos_facts(s.drop_first(), e);
        assert forall|m: int| 0 <= m < insert_pos(s, e) implies !lt_key(e, s[m]) by {
            if m > 0 {
                assert(s.drop_first()[m - 1] == s[m]);
            }
        }
        assert(insert_pos(s, e) < s.len() ==> s.drop_first()[insert_pos(s, e) - 1] == s[insert_pos(
            s,
            e,
        )]);
    }
}

/// Inserting at any index whose scan facts match the stable rule yields the
/// same sequence as the recursive insertion.
proof fn lemma_insert_sorted_at(s: Seq<ListeningSocket>, e: ListeningSocket, j: int)
    requires
        0 <= j <= s.len(),
        forall|m: int| 0 <= m < j ==> !lt_key(e, s[m]),
        j < s.len() ==> lt_key(e, s[j]),
    ensures
        insert_sorted(s, e) == s.insert(j, e),
    decreases s.len(),
{
    if s.len() == 0 {
        assert(insert_sorted(s, e) =~= s.insert(0, e));
    } else if j == 0 {
        assert(lt_key(e, s[0]));
        assert(seq![e] + s =~= s.insert(0, e));
    } else {
        assert(!lt_key(e, s[0]));
        assert(forall|m: int| 0 <= m < j - 1 ==> s.drop_first()[m] == s[m + 1]);
        lemma_insert_sorted_at(s.drop_first(), e, j - 1);
        assert(seq![s[0]] + s.drop_first().insert(j - 1, e) =~= s.insert(j, e));
    }
}

/// Stable insertion into a sorted sequence keeps it sorted; the result holds
/// exactly the old elements plus the inserted one.
proof fn lemma_insert_sorted_props(s: Seq<ListeningSocket>, e: ListeningSocket)
    requires
        sorted_by_key(s),
    ensures
        insert_sorted(s, e).len() == s.len() + 1,
        sorted_by_key(insert_sorted(s, e)),
        forall|i: int|
            0 <= i < s.len() + 1 ==> (insert_sorted(s, e)[i] == e || s.contains(
                insert_sorted(s, e)[i],
            )),
        forall|k: int| 0 <= k < s.len() ==> insert_sorted(s, e).contains(s[k]),
        insert_sorted(s, e).contains(e),
{
    let j = insert_pos(s, e);
    lemma_insert_pos_facts(s, e);
    lemma_insert_sorted_at(s, e, j);
    let t = s.insert(j, e);
    assert(forall|i: int| 0 <= i < j ==> t[i] == s[i]);
    assert(t[j] == e);
    assert(forall|i: int| j < i < s.len() + 1 ==> t[i] == s[i - 1]);
    assert forall|x: int, y: int| 0 <= x < y < t.len() implies le_key(t[x], t[y]) by {
        if x == j && y > j {
            assert(lt_key(e, s[j]));
            assert(j < y - 1 ==> le_key(s[j], s[y - 1]));
        }
        if y == j && x < j {
            assert(!lt_key(e, s[x]));
        }
    }
    assert forall|k: int| 0 <= k < s.len() implies t.contains(s[k]) by {
        if k < j {
            assert(t[k] == s[k]);
        } else {
            assert(t[k + 1] == s[k]);
        }
    }
}

/// The insertion sort of any sequence is sorted and holds exactly the
/// elements of that sequence.
proof fn lemma_sort_props(s: Seq<ListeningSocket>)
    ensures
        sort_by_key(s).len() == s.len(),
        sorted_by_key(sort_by_key(s)),
        forall|k: int| 0 <= k < s.len() ==> sort_by_key(s).contains(s[k]),
        forall|i: int| 0 <= i < sort_by_key(s).len() ==> s.contains(sort_by_key(s)[i]),
    decreases s.len(),
{
    if s.len() > 0 {
        let d = s.drop_last();
        let p = sort_by_key(d);
        let t = sort_by_key(s);
        lemma_sort_props(d);
        lemma_insert_sorted_props(p, s.last());
        assert(forall|m: int| 0 <= m < d.len() ==> d[m] == s[m]);
        assert forall|k: int| 0 <= k < s.len() implies t.contains(s[k]) by {
            if k < s.len() - 1 {
                assert(p.contains(d[k]));
                let ip = choose|ip: int| 0 <= ip < p.len() && p[ip] == d[k];
                assert(t.contains(p[ip]));
            } else {
                assert(t.contains(s.last()));
            }
        }
        assert forall|i: int| 0 <= i < t.len() implies s.contains(t[i]) by {
            if t[i] == s.last() {
                assert(s[s.len() - 1] == t[i]);
                assert(s.contains(t[i]));
            } else {
                assert(p.contains(t[i]));
                let kp = choose|kp: int| 0 <= kp < p.len() && p[kp] == t[i];
                assert(d.contains(p[kp]));
                let k = choose|k: int| 0 <= k < d.len() && d[k] == p[kp];
                assert(s[k] == t[i]);
                assert(s.contains(t[i]));
            }
        }
    }
}

/// Deduplication of a sorted sequence: the result is sorted, has no repeated
/// composite key, represents every input key, and draws every entry from the
/// input; its last entry shares the key of the input's last entry.
proof fn lemma_dedup_props(t: Seq<ListeningSocket>)
    requires
        sorted_by_key(t),
    ensures
        sorted_by_key(dedup_keys(t)),
        unique_keys(dedup_keys(t)),
        forall|k: int| 0 <= k < t.len() ==> has_key(dedup_keys(t), t[k]),
        forall|m: int| 0 <= m < dedup_keys(t).len() ==> t.contains(dedup_keys(t)[m]),
        t.len() > 0 ==> dedup_keys(t).len() > 0 && same_key(dedup_keys(t).last(), t.last()),
        dedup_keys(t).len() <= t.len(),
    decreases t.len(),
{
    if t.len() > 0 {
        let d = t.drop_last();
        let p = dedup_keys(d);
        let r = dedup_keys(t);
        assert(forall|m: int| 0 <= m < d.len() ==> d[m] == t[m]);
        lemma_dedup_props(d);
        assert forall|m: int| 0 <= m < p.len() implies t.contains(p[m]) by {
            assert(d.contains(p[m]));
            let k = choose|k: int| 0 <= k < d.len() && d[k] == p[m];
            assert(t[k] == p[m]);
        }
        if p.len() > 0 && same_key(p.last(), t.last()) {
            assert(r == p);
            assert forall|k: int| 0 <= k < t.len() implies has_key(r, t[k]) by {
                if k < t.len() - 1 {
                    assert(has_key(p, d[k]));
                } else {
                    assert(same_key(t[k], r[r.len() - 1]));
                }
            }
        } else {
            assert(r == p.push(t.last()));
            // every element of p comes from the strictly earlier part of t,
            // so it is bounded by and distinct in key from the new last entry
            if p.len() > 0 {
                assert(d.contains(p[p.len() - 1]));
                let kl = choose|kl: int| 0 <= kl < d.len() && d[kl] == p[p.len() - 1];
                assert(le_key(t[kl], t[t.len() - 1]));
                assert(le_key(p[p.len() - 1], t.last()));
            }
            assert forall|m: int| 0 <= m < p.len() implies le_key(p[m], t.last()) && !same_key(
                p[m],
                t.last(),
            ) by {
                assert(d.contains(p[m]));
                let k = choose|k: int| 0 <= k < d.len() && d[k] == p[m];
                assert(le_key(t[k], t[t.len() - 1]));
                assert(m < p.len() - 1 ==> le_key(p[m], p[p.len() - 1]));
                assert(!same_key(p[p.len() - 1], t.last()));
            }
            assert forall|k: int| 0 <= k < t.len() implies has_key(r, t[k]) by {
                if k < t.len() - 1 {
                    assert(has_key(p, d[k]));
                    let m = choose|m: int| 0 <= m < p.len() && same_key(d[k], p[m]);
                    assert(same_key(t[k], r[m]));
                } else {
                    assert(same_key(t[k], r[r.len() - 1]));
                }
            }
            assert forall|m: int| 0 <= m < r.len() implies t.contains(r[m]) by {
                if m < p.len() {
                    assert(t.contains(p[m]));
                } else {
                    assert(t[t.len() - 1] == r[m]);
                }
            }
        }
    }
}

/// Sorting a sequence that is already sorted leaves it unchanged.
proof fn lemma_sort_of_sorted(s: Seq<ListeningSocket>)
    requires
        sorted_by_key(s),
    ensures
        sort_by_key(s) == s,
    decreases s.len(),
{
    if s.len() > 0 {
        let d = s.drop_last();
        assert(forall|m: int| 0 <= m < d.len() ==> d[m] == s[m]);
        lemma_sort_of_sorted(d);
        let j = insert_pos(d, s.last());
        lemma_insert_pos_facts(d, s.last());
        if j < d.len() {
            assert(le_key(s[j], s.last()));
            assert(false);
        }
        lemma_insert_sorted_at(d, s.last(), j);
        assert(d.insert(d.len() as int, s.last()) =~= s);
    }
}

/// Deduplicating a sequence with no repeated composite key leaves it
/// unchanged.
proof fn lemma_dedup_of_unique(t: Seq<ListeningSocket>)
    requires
        unique_keys(t),
    ensures
        dedup_keys(t) == t,
    decreases t.len(),
{
    if t.len() > 0 {
        let d = t.drop_last();
        assert(forall|m: int| 0 <= m < d.len() ==> d[m] == t[m]);
        lemma_dedup_of_unique(d);
        if d.len() > 0 {
            assert(!same_key(d.last(), t.last()));
        }
        assert(d.push(t.last()) =~= t);
    }
}

/// What the merged directory guarantees: non-decreasing port order via the
/// composite key, no duplicate (port, pid) pair, a representative for every
/// input pair, and nothing that was not in the input.
pub proof fn lemma_merged_directory_props(s: Seq<ListeningSocket>)
    ensures
        sorted_by_key(merged_directory(s)),
        unique_keys(merged_directory(s)),
        forall|k: int| 0 <= k < s.len() ==> has_key(merged_directory(s), s[k]),
        forall|m: int| 0 <= m < merged_directory(s).len() ==> s.contains(merged_directory(s)[m]),
        merged_directory(s).len() <= s.len(),
{
    let t = sort_by_key(s);
    let r = merged_directory(s);
    lemma_sort_props(s);
    lemma_dedup_props(t);
    assert forall|k: int| 0 <= k < s.len() implies has_key(r, s[k]) by {
        assert(t.contains(s[k]));
        let i = choose|i: int| 0 <= i < t.len() && t[i] == s[k];
        assert(has_key(r, t[i]));
        let m = choose|m: int| 0 <= m < r.len() && same_key(t[i], r[m]);
        assert(same_key(s[k], r[m]));
    }
    assert forall|m: int| 0 <= m < r.len() implies s.contains(r[m]) by {
        assert(t.contains(r[m]));
        let i = choose|i: int| 0 <= i < t.len() && t[i] == r[m];
        assert(s.contains(t[i]));
    }
}

/// Merging is idempotent: running the merged directory through the merger
/// again returns it unchanged, so a snapshot already normalized stays as it
/// is.
pub proof fn lemma_merged_directory_idempotent(s: Seq<ListeningSocket>)
    ensures
        merged_directory(merged_directory(s)) == merged_directory(s),
{
    let t = sort_by_key(s);
    let r = merged_directory(s);
    lemma_sort_props(s);
    lemma_dedup_props(t);
    lemma_sort_of_sorted(r);
    lemma_dedup_of_unique(r);
}

/// What one address family contributes to the snapshot: its resolved entries
/// on success, nothing on a fetch failure — partial tolerance, so one failing
/// family never hides the other family's results.
pub open spec fn family_contribution(r: Result<Vec<ListeningSocket>, String>) -> Seq<
    ListeningSocket,
> {
    match r {
        Ok(v) => v@,
        Err(_) => Seq::empty(),
    }
}

fn lt_key_cmp(a: &ListeningSocket, b: &ListeningSocket) -> (r: bool)
    ensures
        r == lt_key(*a, *b),
{
    a.port < b.port || (a.port == b.port && a.pid < b.pid)
}

fn same_key_cmp(a: &ListeningSocket, b: &ListeningSocket) -> (r: bool)
    ensures
        r == same_key(*a, *b),
{
    a.port == b.port && a.pid == b.pid
}

/// Union the per-family socket lists into the final directory: duplicates on
/// (port, pid) collapse to their first occurrence, and the result is ordered
/// by port (ties by process identifier), every retained entry taken verbatim
/// from the input.
pub fn merge_directory(v4: Vec<ListeningSocket>, v6: Vec<ListeningSocket>) -> (r: Vec<
    ListeningSocket,
>)
    ensures
        r@ == merged_directory(v4@ + v6@),
        sorted_by_key(r@),
        forall|i: int| 0 <= i < r@.len() - 1 ==> (#[trigger] r@[i]).port <= r@[i + 1].port,
        unique_keys(r@),
        forall|k: int| 0 <= k < (v4@ + v6@).len() ==> has_key(r@, (v4@ + v6@)[k]),
        forall|m: int| 0 <= m < r@.len() ==> (v4@ + v6@).contains(r@[m]),
{
    let mut all = v4;
    let mut rest = v6;
    all.append(&mut rest);
    let ghost input = all@;
    let ghost mut k: int = 0;
    let mut sorted: Vec<ListeningSocket> = Vec::new();
    while all.len() > 0
        invariant
            0 <= k <= input.len(),
            all@ == input.skip(k),
            sorted@ == sort_by_key(input.take(k)),
        decreases all@.len(),
    {
        let e = all.remove(0);
        proof {
            assert(e == input[k]);
            assert(input.skip(k).remove(0) =~= input.skip(k + 1));
        }
        let mut j: usize = 0;
        while j < sorted.len() && !lt_key_cmp(&e, &sorted[j])
            invariant
                0 <= j <= sorted@.len(),
                forall|m: int| 0 <= m < j ==> !lt_key(e, sorted@[m]),
            decreases sorted@.len() - j,
        {
            j = j + 1;
        }
        proof {
            lemma_insert_sorted_at(sorted@, e, j as int);
        }
        sorted.insert(j, e);
        proof {
            assert(input.take(k + 1).drop_last() =~= input.take(k));
            assert(input.take(k + 1).last() == input[k]);
            k = k + 1;
        }
    }
    proof {
        assert(input.take(k) =~= input);
    }
    let ghost full = sorted@;
    let ghost mut k2: int = 0;
    let mut out: Vec<ListeningSocket> = Vec::new();
    while sorted.len() > 0
        invariant
            0 <= k2 <= full.len(),
            sorted@ == full.skip(k2),
            out@ == dedup_keys(full.take(k2)),
        decreases sorted@.len(),
    {
        let e = sorted.remove(0);
        proof {
            assert(e == full[k2]);
            assert(full.skip(k2).remove(0) =~= full.skip(k2 + 1));
            assert(full.take(k2 + 1).drop_last() =~= full.take(k2));
            assert(full.take(k2 + 1).last() == full[k2]);
        }
        let n = out.len();
        if n == 0 {
            out.push(e);
        } else {
            let dup = same_key_cmp(&out[n - 1], &e);
            if !dup {
                out.push(e);
            }
        }
        proof {
            k2 = k2 + 1;
        }
    }
    proof {
        assert(full.take(k2) =~= full);
        lemma_sort_props(input);
        lemma_dedup_props(full);
        lemma_merged_directory_props(input);
        assert forall|i: int| 0 <= i < out@.len() - 1 implies (#[trigger] out@[i]).port <= out@[i
            + 1].port by {
            assert(le_key(out@[i], out@[i + 1]));
        }
    }
    out
}

/// Assemble the caller-facing snapshot from the two per-family results: a
/// family whose fetch failed contributes an empty set rather than failing
/// the whole call, and the union is deduplicated and port-ordered.
pub fn assemble_snapshot(
    v4: Result<Vec<ListeningSocket>, String>,
    v6: Result<Vec<ListeningSocket>, String>,
) -> (r: Vec<ListeningSocket>)
    ensures
        r@ == merged_directory(family_contribution(v4) + family_contribution(v6)),
        sorted_by_key(r@),
        unique_keys(r@),
{
    let a = match v4 {
        Ok(v) => v,
        Err(_) => Vec::new(),
    };
    let b = match v6 {
        Ok(v) => v,
        Err(_) => Vec::new(),
    };
    merge_directory(a, b)
}

} // verus!
