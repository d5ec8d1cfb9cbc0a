use vstd::prelude::*;

verus! {

/// What eviction reads of one cache file: its size in bytes and its
/// modification time in nanoseconds since the epoch, each absent where the
/// file's metadata could not be read.
#[derive(Clone, Copy, Debug, PartialEq, Eq, Structural)]
pub struct CacheFile {
    pub size: Option<u64>,
    pub modified: Option<u64>,
}

/// Bytes a file counts for: its size, or nothing when unknown.
pub open spec fn size_of(f: CacheFile) -> nat {
    match f.size {
        Some(s) => s as nat,
        None => 0,
    }
}

/// Age rank of a modification time; an unknown time ranks as oldest.
pub open spec fn stamp(m: Option<u64>) -> int {
    match m {
        Some(t) => t as int,
        None => -1,
    }
}

/// File `a` is evicted before file `b`: it is older, or as old and listed first.
pub open spec fn evicted_before(files: Seq<CacheFile>, a: usize, b: usize) -> bool {
    stamp(files[a as int].modified) < stamp(files[b as int].modified) || (stamp(
        files[a as int].modified,
    ) == stamp(files[b as int].modified) && a < b)
}

/// `order` lists every file index once, oldest first, ties by listing order.
pub open spec fn is_age_order(files: Seq<CacheFile>, order: Seq<usize>) -> bool {
    &&& order.len() == files.len()
    &&& forall|i: int| 0 <= i < order.len() ==> order[i] < files.len()
    &&& forall|i: int, j: int|
        0 <= i < j < order.len() ==> evicted_before(files, #[trigger] order[i], #[trigger] order[j])
}

/// Total size of the files listed in `order` from position `from` on.
pub open spec fn size_from(files: Seq<CacheFile>, order: Seq<usize>, from: int) -> nat
    decreases order.len() - from,
{
    if from < 0 || from >= order.len() {
        0
    } else {
        size_of(files[order[from] as int]) + size_from(files, order, from + 1)
    }
}

/// The indices of `files`, oldest first; files of equal age keep their order.
pub fn eviction_order(files: &Vec<CacheFile>) -> (r: Vec<usize>)
    ensures
        is_age_order(files@, r@),
{
    let n = files.len();
    let mut out: Vec<usize> = Vec::new();
    let mut i: usize = 0;
    while i < n
        invariant
            n == files@.len(),
            i <= n,
            out@.len() == i,
            forall|k: int| 0 <= k < out@.len() ==> out@[k] < i,
            forall|k: int, l: int|
                0 <= k < l < out@.len() ==> evicted_before(files@, #[trigger] out@[k], #[trigger] out@[l]),
        decreases n - i,
    {
        let ghost mi = stamp(files@[i as int].modified);
        let mut p: usize = 0;
        while p < out.len() && !older(files[out[p]].modified, files[i].modified)
            invariant
                n == files@.len(),
                i < n,
                p <= out@.len(),
                forall|k: int| 0 <= k < out@.len() ==> out@[k] < i,
                forall|k: int| 0 <= k < p ==> stamp(files@[out@[k] as int].modified) <= mi,
                mi == stamp(files@[i as int].modified),
            decreases out@.len() - p,
        {
            p = p + 1;
        }
        let ghost prev = out@;
        proof {
            if p < prev.len() {
                assert(stamp(files@[prev[p as int] as int].modified) > mi);
                assert forall|k: int| p < k < prev.len() implies stamp(files@[prev[k] as int].modified) > mi by {
                    assert(evicted_before(files@, prev[p as int], prev[k]));
                }
            }
        }
        out.insert(p, i);
        assert forall|k: int, l: int|
            0 <= k < l < out@.len() implies evicted_before(files@, #[trigger] out@[k], #[trigger] out@[l]) by {
            if l < p {
                assert(out@[k] == prev[k] && out@[l] == prev[l]);
            } else if l == p {
                assert(out@[k] == prev[k]);
            } else if k < p {
                assert(out@[k] == prev[k] && out@[l] == prev[l - 1]);
            } else if k == p {
                assert(out@[l] == prev[l - 1]);
            } else {
                assert(out@[k] == prev[k - 1] && out@[l] == prev[l - 1]);
            }
        }
        i = i + 1;
    }
    out
}

/// Modification time `a` is strictly newer than `b` (an unknown time is oldest).
fn older(a: Option<u64>, b: Option<u64>) -> (r: bool)
    ensures
        r == (stamp(a) > stamp(b)),
{
    match (a, b) {
        (None, _) => false,
        (Some(_), None) => true,
        (Some(x), Some(y)) => x > y,
    }
}

/// Sum of `s` from position `from` on.
pub open spec fn sum_from(s: Seq<u64>, from: int) -> nat
    decreases s.len() - from,
{
    if from < 0 || from >= s.len() {
        0
    } else {
        s[from] as nat + sum_from(s, from + 1)
    }
}

proof fn lemma_sum_from_bound(s: Seq<u64>, from: int)
    requires
        0 <= from <= s.len(),
    ensures
        sum_from(s, from) <= (s.len() - from) * 0xffff_ffff_ffff_ffff,
    decreases s.len() - from,
{
    if from < s.len() {
        lemma_sum_from_bound(s, from + 1);
    }
}

proof fn lemma_sum_from_sizes(files: Seq<CacheFile>, order: Seq<usize>, sizes: Seq<u64>, from: int)
    requires
        0 <= from <= order.len(),
        sizes.len() == order.len(),
        forall|k: int| 0 <= k < order.len() ==> sizes[k] as nat == size_of(files[order[k] as int]),
    ensures
        sum_from(sizes, from) == size_from(files, order, from),
    decreases order.len() - from,
{
    if from < order.len() {
        lemma_sum_from_sizes(files, order, sizes, from + 1);
    }
}

/// One pass of evicting cache files, oldest first, until what is left fits
/// `max_bytes`. The caller deletes each file that `next_victim` names and
/// reports with `record` whether the deletion succeeded; a file that could not
/// be deleted still counts towards the total.
pub struct EvictionPass {
    /// File indices, oldest first.
    pub order: Vec<usize>,
    /// `sizes[k]` is the size counted for file `order[k]`.
    pub sizes: Vec<u64>,
    /// Position in `order` of the next candidate.
    pub pos: usize,
    /// Bytes still held by the cache as far as the pass knows.
    pub total: u128,
    /// The byte budget.
    pub max_bytes: u64,
}

impl EvictionPass {
    /// The fields agree and the total still covers every file not yet tried.
    pub open spec fn wf(&self) -> bool {
        &&& self.order@.len() == self.sizes@.len()
        &&& self.pos <= self.order@.len()
        &&& self.total as nat >= sum_from(self.sizes@, self.pos as int)
    }

    /// Starts a pass over `files` with budget `max_bytes`; the total is the
    /// sum of every known file size.
    pub fn new(files: &Vec<CacheFile>, max_bytes: u64) -> (r: Self)
        ensures
            r.wf(),
            is_age_order(files@, r.order@),
            forall|k: int| 0 <= k < r.order@.len() ==> r.sizes@[k] as nat == size_of(files@[r.order@[k] as int]),
            r.pos == 0,
            r.total as nat == sum_from(r.sizes@, 0),
            r.total as nat == size_from(files@, r.order@, 0),
            r.max_bytes == max_bytes,
    {
        let order = eviction_order(files);
        let n = order.len();
        let mut sizes: Vec<u64> = Vec::new();
        let mut i: usize = 0;
        while i < n
            invariant
                n == order@.len(),
                is_age_order(files@, order@),
                i <= n,
                sizes@.len() == i,
                forall|k: int| 0 <= k < i ==> sizes@[k] as nat == size_of(files@[order@[k] as int]),
            decreases n - i,
        {
            let s: u64 = match files[order[i]].size {
                Some(s) => s,
                None => 0,
            };
            sizes.push(s);
            i = i + 1;
        }
        let mut total: u128 = 0;
        let mut k: usize = n;
        while k > 0
            invariant
                n == order@.len(),
                n == sizes@.len(),
                k <= n,
                total as nat == sum_from(sizes@, k as int),
            decreases k,
        {
            proof {
                lemma_sum_from_bound(sizes@, k as int);
                assert((n - k) * 0xffff_ffff_ffff_ffff + 0xffff_ffff_ffff_ffff <= n * 0xffff_ffff_ffff_ffff);
            }
            total = total + sizes[k - 1] as u128;
            k = k - 1;
        }
        proof {
            lemma_sum_from_sizes(files@, order@, sizes@, 0);
        }
        EvictionPass { order, sizes, pos: 0, total, max_bytes }
    }

    /// The next file to delete, or `None` once what is left fits the budget
    /// or every file has been tried.
    pub fn next_victim(&self) -> (r: Option<usize>)
        requires
            self.wf(),
        ensures
            r == if self.total <= self.max_bytes as u128 || self.pos >= self.order@.len() {
                None
            } else {
                Some(self.order@[self.pos as int])
            },
    {
        if self.total <= self.max_bytes as u128 || self.pos >= self.order.len() {
            None
        } else {
            Some(self.order[self.pos])
        }
    }

    /// Records the outcome of deleting the file that `next_victim` named: a
    /// deleted file's size leaves the total.
    pub fn record(&mut self, deleted: bool)
        requires
            old(self).wf(),
            old(self).pos < old(self).order@.len(),
        ensures
            final(self).wf(),
            final(self).order == old(self).order,
            final(self).sizes == old(self).sizes,
            final(self).max_bytes == old(self).max_bytes,
            final(self).pos == old(self).pos + 1,
            final(self).total == if deleted {
                old(self).total - old(self).sizes@[old(self).pos as int]
            } else {
                old(self).total as int
            },
    {
        if deleted {
            self.total = self.total - self.sizes[self.pos] as u128;
        }
        let n = self.order.len();
        if self.pos < n {
            self.pos = self.pos + 1;
        }
    }
}

/// The eviction that deletes oldest files first until the rest fits
/// `max_bytes`, every deletion succeeding: the age order and how many of its
/// first files go. What stays fits the budget, and the last file to go was
/// needed to get there.
pub fn plan_eviction(files: &Vec<CacheFile>, max_bytes: u64) -> (r: (Vec<usize>, usize))
    ensures
        is_age_order(files@, r.0@),
        r.1 <= r.0@.len(),
        size_from(files@, r.0@, r.1 as int) <= max_bytes,
        r.1 > 0 ==> size_from(files@, r.0@, r.1 - 1) > max_bytes,
{
    let mut pass = EvictionPass::new(files, max_bytes);
    let ghost files_v = files@;
    loop
        invariant
            pass.wf(),
            pass.max_bytes == max_bytes,
            is_age_order(files_v, pass.order@),
            forall|k: int| 0 <= k < pass.order@.len() ==> pass.sizes@[k] as nat == size_of(files_v[pass.order@[k] as int]),
            pass.total as nat == sum_from(pass.sizes@, pass.pos as int),
            pass.pos > 0 ==> sum_from(pass.sizes@, pass.pos - 1) > max_bytes,
        ensures
            pass.wf(),
            is_age_order(files_v, pass.order@),
            forall|k: int| 0 <= k < pass.order@.len() ==> pass.sizes@[k] as nat == size_of(files_v[pass.order@[k] as int]),
            pass.total as nat == sum_from(pass.sizes@, pass.pos as int),
            pass.pos > 0 ==> sum_from(pass.sizes@, pass.pos - 1) > max_bytes,
            pass.total <= max_bytes as u128 || pass.pos >= pass.order@.len(),
        decreases pass.order@.len() - pass.pos,
    {
        match pass.next_victim() {
            None => {
                break;
            },
            Some(_) => {
                pass.record(true);
            },
        }
    }
    proof {
        lemma_sum_from_sizes(files_v, pass.order@, pass.sizes@, pass.pos as int);
        if pass.pos > 0 {
            lemma_sum_from_sizes(files_v, pass.order@, pass.sizes@, pass.pos - 1);
        }
    }
    let k = pass.pos;
    (pass.order, k)
}

} // verus!
