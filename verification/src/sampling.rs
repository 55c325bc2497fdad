//! Which known files a run re-hashes: those least recently verified. Every
//! baseline carries the number of the run that last verified it; a run
//! samples the lowest numbers (earlier files first among equals) and gives
//! the files it re-hashes a number above all others. So the sample rotates
//! through the whole folder: no file waits longer than ceil(K / S) runs,
//! with K files and S re-hashed per run.

use vstd::prelude::*;

verus! {

/// File `i` is due before file `j`: verified in an earlier run, or in the
/// same run and listed earlier.
pub open spec fn key_before(keys: Seq<u64>, i: int, j: int) -> bool {
    keys[i] < keys[j] || (keys[i] == keys[j] && i < j)
}

/// The indices of `s`, as integers.
pub open spec fn ints(s: Seq<usize>) -> Seq<int> {
    s.map_values(|x: usize| x as int)
}

/// `picked` lists up to `count` eligible files, least recently verified
/// first: each valid and eligible, each due before the next, and every
/// eligible file left out comes after all of them, which then number
/// exactly `count`.
pub open spec fn least_first(keys: Seq<u64>, eligible: Seq<bool>, count: int, picked: Seq<int>) -> bool {
    &&& picked.len() <= count
    &&& forall|k: int|
        0 <= k < picked.len() ==> 0 <= #[trigger] picked[k] < keys.len() && eligible[picked[k]]
    &&& forall|k: int, l: int|
        0 <= k < l < picked.len() ==> key_before(keys, #[trigger] picked[k], #[trigger] picked[l])
    &&& forall|i: int|
        0 <= i < keys.len() && eligible[i] && !picked.contains(i) ==> picked.len() == count
            && forall|k: int| 0 <= k < picked.len() ==> key_before(keys, #[trigger] picked[k], i)
}

/// File `j` may be picked next: nothing is picked yet, or it comes after the last pick.
pub open spec fn next_candidate(keys: Seq<u64>, eligible: Seq<bool>, picked: Seq<int>, last: int, j: int) -> bool {
    eligible[j] && (picked.len() == 0 || key_before(keys, last, j))
}

/// Picks up to `count` eligible files, least recently verified first.
pub fn pick_least(keys: &Vec<u64>, eligible: &Vec<bool>, count: usize) -> (picked: Vec<usize>)
    requires
        keys@.len() == eligible@.len(),
    ensures
        least_first(keys@, eligible@, count as int, ints(picked@)),
{
    let n = keys.len();
    let mut picked: Vec<usize> = Vec::new();
    let mut last: usize = 0;
    let mut exhausted = false;
    while !exhausted && picked.len() < count
        invariant
            n == keys@.len() == eligible@.len(),
            picked@.len() <= count,
            forall|k: int|
                0 <= k < picked@.len() ==> #[trigger] picked@[k] < n && eligible@[picked@[k] as int],
            forall|k: int, l: int|
                0 <= k < l < picked@.len() ==> key_before(keys@, #[trigger] picked@[k] as int, #[trigger] picked@[l] as int),
            forall|i: int|
                0 <= i < n && eligible@[i] && !ints(picked@).contains(i) ==> forall|k: int|
                    0 <= k < picked@.len() ==> key_before(keys@, #[trigger] picked@[k] as int, i),
            picked@.len() > 0 ==> last == picked@[picked@.len() - 1],
            exhausted ==> forall|i: int| 0 <= i < n && eligible@[i] ==> ints(picked@).contains(i),
        decreases count - picked@.len(), if exhausted { 0int } else { 1int },
    {
        let ghost p = ints(picked@);
        assert(picked@.len() > 0 ==> last < n) by {
            if picked@.len() > 0 {
                assert(picked@[picked@.len() - 1] < n);
            }
        }
        let mut best: Option<usize> = None;
        let mut i: usize = 0;
        while i < n
            invariant
                n == keys@.len() == eligible@.len(),
                i <= n,
                p == ints(picked@),
                picked@.len() > 0 ==> last == picked@[picked@.len() - 1],
                picked@.len() > 0 ==> last < n,
                match best {
                    Some(b) => b < i && next_candidate(keys@, eligible@, p, last as int, b as int),
                    None => true,
                },
                forall|j: int|
                    0 <= j < i && #[trigger] next_candidate(keys@, eligible@, p, last as int, j) ==> (
                    best matches Some(b) && (j == b || key_before(keys@, b as int, j))),
            decreases n - i,
        {
            let candidate = eligible[i] && (picked.len() == 0 || keys[last] < keys[i] || (keys[last]
                == keys[i] && last < i));
            if candidate {
                let better = match best {
                    None => true,
                    Some(b) => keys[i] < keys[b] || (keys[i] == keys[b] && i < b),
                };
                if better {
                    best = Some(i);
                }
            }
            i += 1;
        }
        match best {
            None => {
                proof {
                    assert forall|j: int| 0 <= j < n && eligible@[j] implies p.contains(j) by {
                        if !p.contains(j) {
                            if picked@.len() > 0 {
                                assert(key_before(keys@, picked@[picked@.len() - 1] as int, j));
                            }
                            assert(next_candidate(keys@, eligible@, p, last as int, j));
                        }
                    }
                }
                exhausted = true;
            },
            Some(c) => {
                proof {
                    if p.contains(c as int) {
                        let k = choose|k: int| 0 <= k < p.len() && p[k] == c;
                        assert(picked@[k] == c);
                        if k < p.len() - 1 {
                            assert(key_before(keys@, picked@[k] as int, picked@[p.len() - 1] as int));
                        }
                    }
                }
                let ghost old_picked = picked@;
                picked.push(c);
                proof {
                    assert(ints(picked@) =~= p.push(c as int));
                    assert forall|j: int|
                        0 <= j < n && eligible@[j] && !ints(picked@).contains(j) implies forall|k: int|
                            0 <= k < picked@.len() ==> key_before(keys@, #[trigger] picked@[k] as int, j) by {
                        assert(!p.contains(j)) by {
                            if p.contains(j) {
                                let k = choose|k: int| 0 <= k < p.len() && p[k] == j;
                                assert(ints(picked@)[k] == j);
                            }
                        }
                        assert(ints(picked@)[p.len() as int] == c);
                        assert(j != c);
                        if old_picked.len() > 0 {
                            assert(key_before(keys@, old_picked[old_picked.len() - 1] as int, j));
                        }
                        assert(next_candidate(keys@, eligible@, p, last as int, j));
                        assert forall|k: int| 0 <= k < picked@.len() implies key_before(keys@, #[trigger] picked@[k] as int, j) by {
                            if k < old_picked.len() {
                                assert(picked@[k] == old_picked[k]);
                            }
                        }
                    }
                    assert forall|k: int, l: int|
                        0 <= k < l < picked@.len() implies key_before(keys@, #[trigger] picked@[k] as int, #[trigger] picked@[l] as int) by {
                        if l == picked@.len() - 1 {
                            assert(picked@[k] == old_picked[k]);
                            assert(!p.contains(c as int));
                        } else {
                            assert(picked@[k] == old_picked[k] && picked@[l] == old_picked[l]);
                        }
                    }
                }
                last = c;
            },
        }
    }
    proof {
        let p = ints(picked@);
        assert forall|k: int| 0 <= k < p.len() implies 0 <= #[trigger] p[k] < keys@.len() && eligible@[p[k]] by {
            assert(p[k] == picked@[k]);
        }
        assert forall|k: int, l: int| 0 <= k < l < p.len() implies key_before(keys@, #[trigger] p[k], #[trigger] p[l]) by {
            assert(p[k] == picked@[k] && p[l] == picked@[l]);
        }
        assert forall|i: int|
            0 <= i < keys@.len() && eligible@[i] && !p.contains(i) implies p.len() == count
                && forall|k: int| 0 <= k < p.len() ==> key_before(keys@, #[trigger] p[k], i) by {
            assert forall|k: int| 0 <= k < p.len() implies key_before(keys@, #[trigger] p[k], i) by {
                assert(p[k] == picked@[k]);
            }
        }
    }
    picked
}

/// Every file eligible, `n` of them.
pub open spec fn all_eligible(n: nat) -> Seq<bool> {
    Seq::new(n, |i: int| true)
}

/// The verification numbers after a run numbered `stamp` re-hashed `picked`.
pub open spec fn restamped(keys: Seq<u64>, picked: Seq<int>, stamp: u64) -> Seq<u64> {
    Seq::new(keys.len(), |i: int| if picked.contains(i) { stamp } else { keys[i] })
}

/// The files due before file `f`.
pub open spec fn due_before(keys: Seq<u64>, f: int) -> Set<int> {
    Set::new(|g: int| 0 <= g < keys.len() && key_before(keys, g, f))
}

proof fn lemma_due_before_bound(keys: Seq<u64>, f: int)
    requires
        0 <= f < keys.len(),
    ensures
        due_before(keys, f).finite(),
        due_before(keys, f).len() <= keys.len() - 1,
{
    let range = vstd::set_lib::set_int_range(0, keys.len() as int);
    vstd::set_lib::lemma_int_range(0, keys.len() as int);
    assert(due_before(keys, f).subset_of(range.remove(f)));
    vstd::set_lib::lemma_len_subset(due_before(keys, f), range.remove(f));
}

proof fn lemma_picked_distinct(keys: Seq<u64>, eligible: Seq<bool>, count: int, picked: Seq<int>)
    requires
        least_first(keys, eligible, count, picked),
    ensures
        picked.no_duplicates(),
        picked.to_set().len() == picked.len(),
{
    assert forall|k: int, l: int| 0 <= k < picked.len() && 0 <= l < picked.len() && k != l implies picked[k] != picked[l] by {
        if k < l {
            assert(key_before(keys, picked[k], picked[l]));
        } else {
            assert(key_before(keys, picked[l], picked[k]));
        }
    }
    picked.unique_seq_to_set();
}

/// A run that does not re-hash file `f` re-hashes exactly `count` files due
/// before it, and afterwards those come after it: `count` fewer files are
/// due before `f`.
proof fn lemma_wait_shrinks(keys: Seq<u64>, count: int, picked: Seq<int>, stamp: u64, f: int)
    requires
        least_first(keys, all_eligible(keys.len()), count, picked),
        forall|i: int| 0 <= i < keys.len() ==> keys[i] < stamp,
        0 <= f < keys.len(),
        !picked.contains(f),
    ensures
        due_before(keys, f).len() >= count,
        due_before(restamped(keys, picked, stamp), f).len() == due_before(keys, f).len() - count,
        due_before(restamped(keys, picked, stamp), f).finite(),
{
    let eligible = all_eligible(keys.len());
    assert(eligible[f]);
    let a = due_before(keys, f);
    let b = picked.to_set();
    lemma_due_before_bound(keys, f);
    lemma_picked_distinct(keys, eligible, count, picked);
    assert(b.subset_of(a)) by {
        assert forall|g: int| b.contains(g) implies a.contains(g) by {
            let k = choose|k: int| 0 <= k < picked.len() && picked[k] == g;
            assert(key_before(keys, picked[k], f));
        }
    }
    vstd::set_lib::lemma_len_subset(b, a);
    let after = restamped(keys, picked, stamp);
    assert(due_before(after, f) =~= a.difference(b)) by {
        assert forall|g: int| due_before(after, f).contains(g) <==> a.difference(b).contains(g) by {
            if 0 <= g < keys.len() {
                if picked.contains(g) {
                    assert(after[g] == stamp);
                    assert(after[f] == keys[f]);
                } else {
                    assert(after[g] == keys[g]);
                }
            }
        }
    }
    vstd::seq_lib::seq_to_set_is_finite(picked);
    vstd::set_lib::lemma_set_difference_len(a, b);
    assert(a.intersect(b) =~= b);
}

/// Coverage: with `keys.len()` files kept unchanged, when every run
/// re-hashes the `count` least recently verified ones (see `least_first`)
/// and numbers them above all earlier runs, every file is re-hashed within
/// any `runs` consecutive runs once `runs * count` reaches the number of
/// files, that is within ceil(files / count) runs.
pub proof fn every_file_is_reverified(
    history: Seq<Seq<u64>>,
    picks: Seq<Seq<int>>,
    stamps: Seq<u64>,
    count: int,
    f: int,
)
    requires
        history.len() == picks.len() + 1,
        stamps.len() == picks.len(),
        count >= 1,
        picks.len() * count >= history[0].len(),
        0 <= f < history[0].len(),
        forall|r: int|
            0 <= r < picks.len() ==> {
                &&& #[trigger] history[r].len() == history[0].len()
                &&& least_first(history[r], all_eligible(history[0].len()), count, picks[r])
                &&& forall|i: int| 0 <= i < history[r].len() ==> history[r][i] < stamps[r]
                &&& history[r + 1] == restamped(history[r], picks[r], stamps[r])
            },
    ensures
        exists|r: int| 0 <= r < picks.len() && #[trigger] picks[r].contains(f),
{
    let n = history[0].len();
    let runs = picks.len() as int;
    if forall|r: int| 0 <= r < runs ==> !#[trigger] picks[r].contains(f) {
        assert(runs >= 1) by (nonlinear_arith)
            requires
                runs * count >= n,
                n >= 1,
                count >= 1,
        ;
        lemma_waits(history, picks, stamps, count, f, runs - 1);
        let last = history[runs - 1];
        assert(least_first(last, all_eligible(n), count, picks[runs - 1]));
        lemma_wait_shrinks(last, count, picks[runs - 1], stamps[runs - 1], f);
        assert((runs - 1) * count + count == runs * count) by (nonlinear_arith);
    }
}

/// While file `f` is never re-hashed, each run leaves `count` fewer files
/// due before it.
proof fn lemma_waits(history: Seq<Seq<u64>>, picks: Seq<Seq<int>>, stamps: Seq<u64>, count: int, f: int, r: int)
    requires
        history.len() == picks.len() + 1,
        stamps.len() == picks.len(),
        count >= 1,
        0 <= f < history[0].len(),
        0 <= r < picks.len(),
        forall|j: int| 0 <= j < picks.len() ==> !#[trigger] picks[j].contains(f),
        forall|q: int|
            0 <= q < picks.len() ==> {
                &&& #[trigger] history[q].len() == history[0].len()
                &&& least_first(history[q], all_eligible(history[0].len()), count, picks[q])
                &&& forall|i: int| 0 <= i < history[q].len() ==> history[q][i] < stamps[q]
                &&& history[q + 1] == restamped(history[q], picks[q], stamps[q])
            },
    ensures
        history[r].len() == history[0].len(),
        due_before(history[r], f).finite(),
        due_before(history[r], f).len() + r * count <= history[0].len() - 1,
    decreases r,
{
    if r == 0 {
        lemma_due_before_bound(history[0], f);
    } else {
        lemma_waits(history, picks, stamps, count, f, r - 1);
        let prev = history[r - 1];
        assert(history[r - 1].len() == history[0].len());
        assert(least_first(prev, all_eligible(history[0].len()), count, picks[r - 1]));
        assert(!picks[r - 1].contains(f));
        lemma_wait_shrinks(prev, count, picks[r - 1], stamps[r - 1], f);
        assert(history[r] == restamped(prev, picks[r - 1], stamps[r - 1]));
        assert((r - 1) * count + count == r * count) by (nonlinear_arith);
    }
}

} // verus!
