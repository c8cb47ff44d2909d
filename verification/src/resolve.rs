//! The pure part of process resolution: truncating the queried module path
//! at its first null terminator, and deriving the short display name — the
//! final backslash-delimited component of the path, or a synthetic
//! `PID <n>` label when no path could be obtained.
use vstd::prelude::*;

use crate::text::{pid_label, pid_label_string};

verus! {

/// Index of the first zero in the buffer, or its length when there is none.
pub open spec fn nul_index(b: Seq<u16>) -> int
    decreases b.len(),
{
    if b.len() == 0 {
        0
    } else if b[0] == 0 {
        0
    } else {
        1 + nul_index(b.drop_first())
    }
}

proof fn lemma_nul_index_at(b: Seq<u16>, i: int)
    requires
        0 <= i <= b.len(),
        forall|k: int| 0 <= k < i ==> b[k] != 0,
        i < b.len() ==> b[i] == 0,
    ensures
        nul_index(b) == i,
    decreases b.len(),
{
    if b.len() > 0 && b[0] != 0 {
        assert(forall|k: int| 0 <= k < i - 1 ==> b.drop_first()[k] == b[k + 1]);
        assert(i - 1 < b.drop_first().len() ==> b.drop_first()[i - 1] == b[i]);
        lemma_nul_index_at(b.drop_first(), i - 1);
    }
}

/// Cut the wide-character buffer at its first null terminator, as the module
/// path query pads the rest of the buffer with zeros.
pub fn truncate_at_nul(b: &mut Vec<u16>)
    ensures
        final(b)@ == old(b)@.take(nul_index(old(b)@)),
{
    let mut i: usize = 0;
    while i < b.len() && b[i] != 0
        invariant
            0 <= i <= b@.len(),
            forall|k: int| 0 <= k < i ==> b@[k] != 0,
            b@ == old(b)@,
        decreases b@.len() - i,
    {
        i = i + 1;
    }
    proof {
        lemma_nul_index_at(b@, i as int);
    }
    b.truncate(i);
}

/// The suffix of the path after its last backslash separator: empty when the
/// path ends in a separator, the whole path when it holds none.
pub open spec fn after_last_sep(s: Seq<char>) -> Seq<char>
    decreases s.len(),
{
    if s.len() == 0 {
        s
    } else if s.last() == '\\' {
        Seq::empty()
    } else {
        after_last_sep(s.drop_last()).push(s.last())
    }
}

proof fn lemma_after_last_sep_at(s: Seq<char>, i: int)
    requires
        0 <= i <= s.len(),
        i > 0 ==> s[i - 1] == '\\',
        forall|k: int| i <= k < s.len() ==> s[k] != '\\',
    ensures
        after_last_sep(s) == s.subrange(i, s.len() as int),
    decreases s.len(),
{
    if s.len() == 0 {
        assert(after_last_sep(s) =~= s.subrange(0, 0));
    } else if i == s.len() {
        assert(s.last() == '\\');
        assert(after_last_sep(s) =~= s.subrange(i, s.len() as int));
    } else {
        assert(s.last() != '\\');
        let d = s.drop_last();
        assert(forall|k: int| 0 <= k < d.len() ==> d[k] == s[k]);
        lemma_after_last_sep_at(d, i);
        assert(d.subrange(i, d.len() as int).push(s.last()) =~= s.subrange(i, s.len() as int));
    }
}

/// What the display name of a resolved process is: the synthetic label when
/// the path is empty, else the path's final backslash-delimited component.
pub open spec fn display_name(path: Seq<char>, pid: nat) -> Seq<char> {
    if path.len() == 0 {
        pid_label(pid)
    } else {
        after_last_sep(path)
    }
}

/// Derive the short display name for a process from its resolved executable
/// path; an empty path (the process could not be opened or queried) degrades
/// to the synthetic `PID <n>` label rather than an error.
pub fn derive_display_name(path: &str, pid: u32) -> (r: String)
    ensures
        r@ == display_name(path@, pid as nat),
{
    let n = path.unicode_len();
    if n == 0 {
        return pid_label_string(pid);
    }
    let mut i: usize = n;
    while i > 0 && path.get_char(i - 1) != '\\'
        invariant
            0 <= i <= n,
            n == path@.len(),
            forall|k: int| i <= k < n ==> path@[k] != '\\',
        decreases i,
    {
        i = i - 1;
    }
    proof {
        lemma_after_last_sep_at(path@, i as int);
    }
    let tail = path.substring_char(i, n);
    String::from_str(tail)
}

} // verus!
