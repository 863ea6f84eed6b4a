//! The core of the `list` sub-command: partitioning directory entries into
//! directories and files and sorting each group by name.

use crate::strings::lemma_lex_le_total;
use crate::strings::lemma_lex_le_trans;
use crate::strings::lex_le;
use crate::strings::str_le;
use vstd::prelude::*;

verus! {

/// One directory entry as handed in by the caller: its name and whether it
/// is a directory.
#[derive(Debug, PartialEq)]
pub struct DirEntry {
    pub name: String,
    pub is_dir: bool,
}

/// The names of the entries whose kind matches `want_dir`, in input order.
pub open spec fn names_matching(entries: Seq<DirEntry>, want_dir: bool) -> Seq<String>
    decreases entries.len(),
{
    if entries.len() == 0 {
        Seq::<String>::empty()
    } else {
        let prev = names_matching(entries.drop_last(), want_dir);
        if entries.last().is_dir == want_dir {
            prev.push(entries.last().name)
        } else {
            prev
        }
    }
}

/// The names are in code-point order.
pub open spec fn sorted_lex(s: Seq<String>) -> bool {
    forall|i: int, j: int| 0 <= i <= j < s.len() ==> lex_le(s[i]@, s[j]@)
}

/// The two sorted groups reported by `list`: directories first, then
/// files.
#[derive(Debug, PartialEq)]
pub struct DirListing {
    pub dirs: Vec<String>,
    pub files: Vec<String>,
}

/// Sorts names in code-point order; the result is a permutation of the
/// input.
pub fn sort_names(v: Vec<String>) -> (r: Vec<String>)
    ensures
        sorted_lex(r@),
        r@.to_multiset() == v@.to_multiset(),
{
    broadcast use vstd::seq_lib::group_to_multiset_ensures;
    broadcast use vstd::multiset::group_multiset_axioms;

    let mut rest = v;
    let mut out: Vec<String> = Vec::new();
    proof {
        assert(out@.to_multiset().add(rest@.to_multiset()) =~= v@.to_multiset());
    }
    while rest.len() > 0
        invariant
            out@.to_multiset().add(rest@.to_multiset()) == v@.to_multiset(),
            sorted_lex(out@),
            forall|a: int, b: int|
                0 <= a < out@.len() && 0 <= b < rest@.len() ==> lex_le(out@[a]@, rest@[b]@),
        decreases rest@.len(),
    {
        let mut m: usize = 0;
        let mut k: usize = 1;
        proof {
            lemma_lex_le_total(rest@[0]@, rest@[0]@);
        }
        while k < rest.len()
            invariant
                m < k <= rest@.len(),
                rest@.len() > 0,
                forall|j: int| 0 <= j < k ==> lex_le(rest@[m as int]@, rest@[j]@),
            decreases rest@.len() - k,
        {
            if str_le(rest[k].as_str(), rest[m].as_str()) {
                proof {
                    assert forall|j: int| 0 <= j < k + 1 implies lex_le(
                        rest@[k as int]@,
                        rest@[j]@,
                    ) by {
                        if j < k {
                            lemma_lex_le_trans(rest@[k as int]@, rest@[m as int]@, rest@[j]@);
                        } else {
                            lemma_lex_le_total(rest@[k as int]@, rest@[k as int]@);
                        }
                    }
                }
                m = k;
            } else {
                proof {
                    lemma_lex_le_total(rest@[k as int]@, rest@[m as int]@);
                }
            }
            k = k + 1;
        }
        let ghost old_out = out@;
        let ghost old_rest = rest@;
        let x = rest.remove(m);
        let ghost gx = x;
        out.push(x);
        proof {
            broadcast use vstd::seq_lib::group_to_multiset_ensures;
            broadcast use vstd::multiset::group_multiset_axioms;

            assert(old_rest.to_multiset().count(gx) > 0) by {
                assert(old_rest[m as int] == gx);
                assert(old_rest.contains(gx));
            }
            assert(out@ == old_out.push(gx));
            assert(old_out.push(gx).to_multiset() =~= old_out.to_multiset().insert(gx));
            assert(rest@ == old_rest.remove(m as int));
            assert(old_rest.remove(m as int).to_multiset() == old_rest.to_multiset().remove(
                gx,
            ));
            assert(out@.to_multiset().add(rest@.to_multiset()) =~= v@.to_multiset());
            assert forall|a: int, b: int|
                0 <= a < out@.len() && 0 <= b < rest@.len() implies lex_le(
                out@[a]@,
                rest@[b]@,
            ) by {
                if a < old_out.len() {
                    if b < m {
                        assert(rest@[b] == old_rest[b]);
                    } else {
                        assert(rest@[b] == old_rest[b + 1]);
                    }
                } else {
                    assert(out@[a] == gx);
                    if b < m {
                        assert(rest@[b] == old_rest[b]);
                    } else {
                        assert(rest@[b] == old_rest[b + 1]);
                    }
                }
            }
            assert(sorted_lex(out@)) by {
                assert(forall|i: int|
                    0 <= i < old_out.len() ==> out@[i] == old_out[i] && lex_le(
                        out@[i]@,
                        gx@,
                    ));
                assert(out@[out@.len() - 1] == gx);
            }
        }
    }
    out
}

/// Partitions entries into directory names and file names, each group
/// sorted in code-point order. Every entry lands in exactly one group.
pub fn partition_entries(entries: &Vec<DirEntry>) -> (r: DirListing)
    ensures
        sorted_lex(r.dirs@),
        sorted_lex(r.files@),
        r.dirs@.to_multiset() == names_matching(entries@, true).to_multiset(),
        r.files@.to_multiset() == names_matching(entries@, false).to_multiset(),
{
    let n = entries.len();
    let mut dirs: Vec<String> = Vec::new();
    let mut files: Vec<String> = Vec::new();
    proof {
        assert(entries@.take(0) =~= Seq::<DirEntry>::empty());
    }
    let mut i: usize = 0;
    while i < n
        invariant
            i <= n,
            n == entries@.len(),
            dirs@ == names_matching(entries@.take(i as int), true),
            files@ == names_matching(entries@.take(i as int), false),
        decreases n - i,
    {
        let e = &entries[i];
        if e.is_dir {
            dirs.push(e.name.clone());
        } else {
            files.push(e.name.clone());
        }
        i = i + 1;
        proof {
            let now = entries@.take(i as int);
            assert(now.drop_last() =~= entries@.take(i - 1));
            assert(now.last() == entries@[i - 1]);
            assert(dirs@ =~= names_matching(now, true));
            assert(files@ =~= names_matching(now, false));
        }
    }
    proof {
        assert(entries@.take(n as int) =~= entries@);
    }
    let dirs = sort_names(dirs);
    let files = sort_names(files);
    DirListing { dirs, files }
}

/// Partitioning is exhaustive and exclusive: each entry goes to exactly
/// one of the two groups, so the group sizes add up to the entry count.
pub proof fn lemma_partition_complete(entries: Seq<DirEntry>)
    ensures
        names_matching(entries, true).len() + names_matching(entries, false).len()
            == entries.len(),
    decreases entries.len(),
{
    if entries.len() > 0 {
        lemma_partition_complete(entries.drop_last());
    }
}

} // verus!
