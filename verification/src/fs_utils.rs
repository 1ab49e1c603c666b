//! Choosing backup names that collide with nothing in a directory.
use vstd::prelude::*;

verus! {

use crate::error::AppError;
use crate::error::ErrorKind;
use vstd::string::StringExecFns;

/// Some entry of the sequence is this text.
pub open spec fn seq_contains(s: Seq<Seq<char>>, x: Seq<char>) -> bool {
    exists|i: int| 0 <= i < s.len() && s[i] == x
}

/// The `k`-th backup name tried for a file: the name with `.bak` appended,
/// then with one more `1` per further try.
pub open spec fn backup_candidate(name: Seq<char>, k: nat) -> Seq<char>
    decreases k,
{
    if k == 0 {
        name + ".bak"@
    } else {
        backup_candidate(name, (k - 1) as nat) + "1"@
    }
}

/// `b` is the first backup name for `name` that the directory listing does
/// not already hold.
pub open spec fn is_first_free_backup(name: Seq<char>, entries: Seq<Seq<char>>, b: Seq<char>) -> bool {
    exists|k: nat|
        #![trigger backup_candidate(name, k)]
        k <= entries.len() && b == backup_candidate(name, k) && !seq_contains(
            entries,
            backup_candidate(name, k),
        ) && forall|j: nat| j < k ==> seq_contains(entries, backup_candidate(name, j))
}

/// Among the first `entries.len() + 1` backup names, one is free.
pub open spec fn has_free_backup(name: Seq<char>, entries: Seq<Seq<char>>) -> bool {
    exists|k: nat|
        k <= entries.len() && !seq_contains(entries, #[trigger] backup_candidate(name, k))
}

/// Each further try makes the candidate one character longer.
proof fn lemma_backup_candidate_len(name: Seq<char>, k: nat)
    ensures
        backup_candidate(name, k).len() == name.len() + 4 + k,
    decreases k,
{
    reveal_strlit(".bak");
    reveal_strlit("1");
    if k > 0 {
        lemma_backup_candidate_len(name, (k - 1) as nat);
    }
}

/// The capped search cannot run out: there is one more candidate than
/// there are entries, and no two candidates are alike.
pub proof fn lemma_backup_available(name: Seq<char>, entries: Seq<Seq<char>>)
    ensures
        has_free_backup(name, entries),
{
    broadcast use vstd::seq_lib::seq_to_set_is_finite;
    broadcast use vstd::set::group_set_axioms;

    if !has_free_backup(name, entries) {
        let n = entries.len();
        let cs = Seq::new(n + 1, |k: int| backup_candidate(name, k as nat));
        assert(cs.no_duplicates()) by {
            assert forall|a: int, b: int| 0 <= a < cs.len() && 0 <= b < cs.len() && a != b implies
                cs[a] != cs[b] by {
                lemma_backup_candidate_len(name, a as nat);
                lemma_backup_candidate_len(name, b as nat);
            }
        }
        cs.unique_seq_to_set();
        assert(cs.to_set().subset_of(entries.to_set())) by {
            assert forall|x: Seq<char>| cs.to_set().contains(x) implies entries.to_set().contains(
                x,
            ) by {
                let a = choose|a: int| 0 <= a < cs.len() && cs[a] == x;
                assert(seq_contains(entries, backup_candidate(name, a as nat)));
                let e = choose|e: int| 0 <= e < entries.len() && entries[e] == x;
                assert(entries.contains(x));
            }
        }
        entries.lemma_cardinality_of_set();
        vstd::set_lib::lemma_len_subset(cs.to_set(), entries.to_set());
        assert(false);
    }
}

/// Whether the listing holds this text.
fn vec_contains_string(v: &Vec<String>, s: &String) -> (b: bool)
    ensures
        b == seq_contains(v.deep_view(), s@),
{
    let n = v.len();
    let mut i: usize = 0;
    while i < n
        invariant
            i <= n,
            n == v@.len(),
            forall|j: int| 0 <= j < i ==> v.deep_view()[j] != s@,
        decreases n - i,
    {
        if v[i] == *s {
            proof {
                assert(v.deep_view()[i as int] == s@);
            }
            return true;
        }
        i = i + 1;
    }
    false
}

/// The name a backup of `file_name` gets: the first of `file_name.bak`,
/// `file_name.bak1`, `file_name.bak11`, … that the directory listing does
/// not hold.  The search is capped at one more candidate than there are
/// entries rather than run on without bound; the cap can never be reached
/// (`lemma_backup_available`), so a name is always found.
pub fn backup_file_name(file_name: &String, existing: &Vec<String>) -> (r: Result<String, AppError>)
    requires
        existing@.len() < usize::MAX,
    ensures
        r matches Ok(b) && is_first_free_backup(file_name@, existing.deep_view(), b@),
{
    let mut candidate = file_name.clone();
    candidate.append(".bak");
    proof {
        reveal_strlit(".bak");
        assert(candidate@ == backup_candidate(file_name@, 0));
    }
    let n = existing.len();
    let mut k: usize = 0;
    while k <= n
        invariant
            k <= n + 1,
            n < usize::MAX,
            n == existing@.len(),
            candidate@ == backup_candidate(file_name@, k as nat),
            forall|j: nat|
                j < k ==> seq_contains(existing.deep_view(), #[trigger] backup_candidate(
                    file_name@,
                    j,
                )),
        decreases n + 1 - k,
    {
        if !vec_contains_string(existing, &candidate) {
            proof {
                assert(is_first_free_backup(file_name@, existing.deep_view(), candidate@));
            }
            return Ok(candidate);
        }
        candidate.append("1");
        proof {
            reveal_strlit("1");
            assert(candidate@ == backup_candidate(file_name@, (k + 1) as nat));
        }
        k = k + 1;
    }
    proof {
        lemma_backup_available(file_name@, existing.deep_view());
        assert(false);
    }
    Err(
        AppError::new(
            ErrorKind::NameCollision,
            "no free backup name was found for the file",
        ),
    )
}

} // verus!
