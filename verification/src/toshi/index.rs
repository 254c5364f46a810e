//! Which index documents go to: the first that is not full.
use vstd::prelude::*;

use crate::number::{decimal, digits_injective, to_decimal};

verus! {

/// The name of an index.
pub open spec fn index_name(index: nat) -> Seq<char> {
    "yaffle_"@ + decimal(index)
}

/// The name of an index.
pub fn make_index_name(index: u32) -> (res: String)
    ensures
        res@ == index_name(index as nat),
{
    let mut name = "yaffle_".to_owned();
    name.append(to_decimal(index as u64).as_str());
    name
}

/// Different indexes have different names.
pub proof fn index_names_differ(a: nat, b: nat)
    requires
        a != b,
    ensures
        index_name(a) != index_name(b),
{
    let prefix = "yaffle_"@;
    if index_name(a) == index_name(b) {
        assert(decimal(a) =~= index_name(a).skip(prefix.len() as int));
        assert(decimal(b) =~= index_name(b).skip(prefix.len() as int));
        digits_injective(a, b, 10);
    }
}

/// The number of documents in segments.
pub open spec fn total_docs(segments: Seq<u32>) -> nat
    decreases segments.len(),
{
    if segments.len() == 0 {
        0
    } else {
        total_docs(segments.drop_last()) + segments.last() as nat
    }
}

/// Whether an index takes more documents: the sizes of its segments are known, and
/// together they hold fewer than the limit.
pub open spec fn is_open(segments: Option<Seq<u32>>, max_docs: u32) -> bool {
    match segments {
        Some(s) => total_docs(s) < max_docs,
        None => false,
    }
}

/// Whether an index takes more documents, by the sizes of its segments.
pub fn index_is_open(segments: &Option<Vec<u32>>, max_docs: u32) -> (res: bool)
    ensures
        res == is_open(
            match *segments {
                Some(s) => Some(s@),
                None => None,
            },
            max_docs,
        ),
{
    match segments {
        Some(sizes) => {
            let mut sum: u64 = 0;
            let mut i: usize = 0;
            assert(sizes@.take(0) =~= Seq::<u32>::empty());
            while i < sizes.len()
                invariant
                    *segments == Some(*sizes),
                    i <= sizes@.len(),
                    sum < max_docs || (i == 0 && sum == 0),
                    sum == total_docs(sizes@.take(i as int)),
                decreases sizes@.len() - i,
            {
                assert(sizes@.take(i + 1).drop_last() =~= sizes@.take(i as int));
                sum = sum + sizes[i] as u64;
                i = i + 1;
                if sum >= max_docs as u64 {
                    proof {
                        lemma_total_grows(sizes@, i as int);
                    }
                    return false;
                }
            }
            assert(sizes@.take(i as int) =~= sizes@);
            sum < max_docs as u64
        },
        None => false,
    }
}

/// More segments hold no fewer documents.
proof fn lemma_total_grows(segments: Seq<u32>, k: int)
    requires
        0 <= k <= segments.len(),
    ensures
        total_docs(segments.take(k)) <= total_docs(segments),
    decreases segments.len() - k,
{
    if k == segments.len() {
        assert(segments.take(k) =~= segments);
    } else {
        assert(segments.take(k + 1).drop_last() =~= segments.take(k));
        lemma_total_grows(segments, k + 1);
    }
}

/// The number of indexes that are looked for at first.
pub const PROBES: u32 = 200;

/// The index that is looked for after `k` others: every tenth from the highest down,
/// then those behind each of them, and so on.
pub open spec fn probe(k: int) -> int {
    (19 - k % 20) * 10 + k / 20
}

/// The index that is looked for after `k` others.
pub fn nth_probe(k: u32) -> (res: u32)
    requires
        k < PROBES,
    ensures
        res == probe(k as int),
        res < PROBES,
{
    (19 - k % 20) * 10 + k / 20
}

/// Each of the indexes is looked for exactly once.
pub proof fn each_index_is_probed_once(n: int)
    requires
        0 <= n < PROBES,
    ensures
        ({
            let k = (n % 10) * 20 + (19 - n / 10);
            0 <= k < PROBES && probe(k) == n
        }),
        forall|j: int, k: int|
            0 <= j < PROBES && 0 <= k < PROBES && #[trigger] probe(j) == n && #[trigger] probe(k)
                == n ==> j == k,
{
    let q = n / 10;
    let r = n % 10;
    let m = r * 20 + (19 - q);
    assert(n == 10 * q + r && 0 <= q < 20 && 0 <= r < 10);
    assert(m / 20 == r && m % 20 == 19 - q);
    assert forall|j: int, k: int|
        0 <= j < PROBES && 0 <= k < PROBES && #[trigger] probe(j) == n && #[trigger] probe(k)
            == n implies j == k by {
        lemma_probe_inverse(j);
        lemma_probe_inverse(k);
    }
}

/// How many others are looked for before an index can be told from the index.
proof fn lemma_probe_inverse(k: int)
    requires
        0 <= k < PROBES,
    ensures
        0 <= probe(k) < PROBES,
        k == (probe(k) % 10) * 20 + (19 - probe(k) / 10),
{
    let q = k / 20;
    let r = k % 20;
    let n = (19 - r) * 10 + q;
    assert(k == 20 * q + r && 0 <= q < 10 && 0 <= r < 20);
    assert(n / 10 == 19 - r && n % 10 == q);
}

/// How far the search for an index has come.
#[derive(Clone, Copy, Debug, PartialEq, Eq, Structural)]
pub enum Search {
    /// So many indexes were looked for, and none is there.
    Probing(u32),
    /// Some index is there, and this one is looked at.
    Walking(u32),
}

/// What is to be done next.
#[derive(Clone, Copy, Debug, PartialEq, Eq, Structural)]
pub enum Step {
    /// Look at this index.
    Check(u32),
    /// Create this index, and use it.
    Create(u32),
    /// Use this index.
    Use(u32),
    /// There are no more indexes.
    Exhausted,
}

/// What is to be done at the start of a search.
pub open spec fn first_step() -> (Search, Step) {
    (Search::Probing(0), Step::Check(190))
}

/// What is to be done after an index was looked at. While none was found, the next is
/// looked for; where none is there at all, the first is created. From one that is
/// there on, the first that is open is used, and the first that is not there created.
pub open spec fn next_step(state: Search, exists_: bool, open: bool) -> (Search, Step) {
    match state {
        Search::Probing(k) => if exists_ {
            (Search::Walking(probe(k as int) as u32), Step::Check(probe(k as int) as u32))
        } else if k + 1 < PROBES {
            (Search::Probing((k + 1) as u32), Step::Check(probe(k + 1) as u32))
        } else {
            (state, Step::Create(0))
        },
        Search::Walking(i) => if open {
            (state, Step::Use(i))
        } else if !exists_ {
            (state, Step::Create(i))
        } else if i < u32::MAX {
            (Search::Walking((i + 1) as u32), Step::Check((i + 1) as u32))
        } else {
            (state, Step::Exhausted)
        },
    }
}

/// Whether a search has not gone beyond the indexes that are looked for.
pub open spec fn in_range(state: Search) -> bool {
    state matches Search::Probing(k) ==> k < PROBES
}

/// What is to be done at the start of a search for an index.
pub fn find_index() -> (res: (Search, Step))
    ensures
        res == first_step(),
        in_range(res.0),
        res.1 == Step::Check(probe(0) as u32),
{
    (Search::Probing(0), Step::Check(190))
}

/// What is to be done after an index was looked at.
pub fn after_check(state: Search, exists_: bool, open: bool) -> (res: (Search, Step))
    requires
        in_range(state),
    ensures
        res == next_step(state, exists_, open),
        in_range(res.0),
{
    match state {
        Search::Probing(k) => if exists_ {
            let i = nth_probe(k);
            (Search::Walking(i), Step::Check(i))
        } else if k + 1 < PROBES {
            (Search::Probing(k + 1), Step::Check(nth_probe(k + 1)))
        } else {
            (state, Step::Create(0))
        },
        Search::Walking(i) => if open {
            (state, Step::Use(i))
        } else if !exists_ {
            (state, Step::Create(i))
        } else if i < u32::MAX {
            (Search::Walking(i + 1), Step::Check(i + 1))
        } else {
            (state, Step::Exhausted)
        },
    }
}

/// Whether an index is there and takes documents, as the search engine answers.
pub struct Status {
    pub there: bool,
    pub open: bool,
}

/// The first index that is there of those that are looked for after `k` others.
pub open spec fn first_there(status: spec_fn(int) -> Status, k: int) -> Option<int>
    decreases PROBES - k,
{
    if k < 0 || k >= PROBES {
        None
    } else if status(probe(k)).there {
        Some(probe(k))
    } else {
        first_there(status, k + 1)
    }
}

/// Where no index is found that is there, none of them is.
pub proof fn none_is_missed(status: spec_fn(int) -> Status, n: int)
    requires
        0 <= n < PROBES,
        first_there(status, 0) is None,
    ensures
        !status(n).there,
{
    each_index_is_probed_once(n);
    lemma_none_there(status, 0, (n % 10) * 20 + (19 - n / 10));
}

/// Where none is found that is there, each that was looked for is not.
proof fn lemma_none_there(status: spec_fn(int) -> Status, j: int, k: int)
    requires
        0 <= j <= k < PROBES,
        first_there(status, j) is None,
    ensures
        !status(probe(k)).there,
    decreases k - j,
{
    if j < k {
        lemma_none_there(status, j + 1, k);
    }
}

/// Each step of the search for an index that is there does what the search says: it
/// walks on from the first that is there, and creates the first of all where none is.
pub proof fn probing_finds_the_first_there(status: spec_fn(int) -> Status, k: u32)
    requires
        k < PROBES,
    ensures
        ({
            let s = status(probe(k as int));
            let (state, step) = next_step(Search::Probing(k), s.there, s.open);
            match step {
                Step::Check(n) => if s.there {
                    first_there(status, k as int) == Some(n as int) && state == Search::Walking(n)
                } else {
                    k + 1 < PROBES && state == Search::Probing((k + 1) as u32) && n == probe(k + 1)
                        && first_there(status, k as int) == first_there(status, k + 1)
                },
                Step::Create(n) => n == 0 && first_there(status, k as int) is None,
                _ => false,
            }
        }),
{
    lemma_probe_inverse(k as int);
    if k + 1 < PROBES {
        lemma_probe_inverse(k + 1);
    } else {
        assert(first_there(status, k + 1) is None);
    }
}

/// Where a walk from `i` ends, given the status of each index: after so many steps at
/// most.
pub open spec fn walk(status: spec_fn(int) -> Status, i: int, fuel: nat) -> Option<int>
    decreases fuel,
{
    if status(i).open || !status(i).there {
        Some(i)
    } else if fuel == 0 {
        None
    } else {
        walk(status, i + 1, (fuel - 1) as nat)
    }
}

/// A walk ends at the first index from its start on that is open or not there: every
/// one before it is there and full.
pub proof fn walk_finds_the_first(status: spec_fn(int) -> Status, i: int, fuel: nat)
    ensures
        walk(status, i, fuel) matches Some(n) ==> i <= n <= i + fuel && (status(n).open
            || !status(n).there) && forall|j: int|
            i <= j < n ==> (#[trigger] status(j)).there && !status(j).open,
        walk(status, i, fuel) is None ==> forall|j: int|
            i <= j <= i + fuel ==> (#[trigger] status(j)).there && !status(j).open,
    decreases fuel,
{
    if !(status(i).open || !status(i).there) && fuel > 0 {
        walk_finds_the_first(status, i + 1, (fuel - 1) as nat);
    }
}

/// Each step of a walk does what the walk says: it ends where the walk ends, and else
/// goes on to the next index.
pub proof fn walking_follows_the_walk(status: spec_fn(int) -> Status, i: u32, fuel: nat)
    requires
        i < u32::MAX,
    ensures
        ({
            let s = status(i as int);
            let (state, step) = next_step(Search::Walking(i), s.there, s.open);
            match step {
                Step::Use(n) => walk(status, i as int, fuel) == Some(n as int) && s.open,
                Step::Create(n) => walk(status, i as int, fuel) == Some(n as int) && !s.open
                    && !s.there,
                Step::Check(n) => n == i + 1 && state == Search::Walking(n) && walk(
                    status,
                    i as int,
                    fuel + 1,
                ) == walk(status, n as int, fuel),
                Step::Exhausted => false,
            }
        }),
{
}

/// Whether it is time to commit what was written: ten seconds after the last time.
pub fn commit_due(elapsed_secs: u64) -> (res: bool)
    ensures
        res == (elapsed_secs >= 10),
{
    elapsed_secs >= 10
}

} // verus!
