//! Insights over a project's retrospectives: how many succeeded, which files
//! are most often touched by failing tasks, and which errors recur.
//!
//! Averages of durations, costs and confidences, and the failure rates as
//! fractions, are floating-point and left to the caller; everything here is
//! counted.

use vstd::prelude::*;
use crate::keyed::{lemma_keyed_domain, lemma_keyed_value, KeyedList};
use crate::text::{chars_of, extend_str, slice_range, string_of, string_views};

verus! {

/// The number of files and of errors an insights report lists at most.
pub const MAX_LISTED: usize = 10;

/// The number of characters past which an error is cut before errors are
/// grouped.
pub const ERROR_KEY_CHARS: usize = 100;

/// What the insights read of one retrospective.
#[derive(Debug, Clone)]
pub struct RetroFacts {
    /// Whether the task succeeded.
    pub is_success: bool,
    /// The files the task modified.
    pub files_modified: Vec<String>,
    /// The last error of the task, if any.
    pub last_error: Option<String>,
}

/// A file touched by failing tasks: how often it was modified, and how often
/// by a task that failed.
#[derive(Debug, Clone)]
pub struct RiskyFile {
    pub path: String,
    pub failures: usize,
    pub occurrences: usize,
}

/// An error and how many retrospectives ended with it.
#[derive(Debug, Clone)]
pub struct CommonError {
    pub error: String,
    pub count: usize,
}

/// The counted part of the insights.
#[derive(Debug, Clone)]
pub struct InsightCounts {
    /// The number of retrospectives.
    pub total_retrospectives: usize,
    /// The number that succeeded.
    pub successes: usize,
    /// The riskiest files, highest failure rate first.
    pub risky_files: Vec<RiskyFile>,
    /// The most frequent errors, most frequent first.
    pub common_errors: Vec<CommonError>,
}

// ============================================================================
// Tallies
// ============================================================================

/// The number of file modifications in a list of retrospectives.
pub open spec fn total_files(rs: Seq<RetroFacts>) -> nat
    decreases rs.len(),
{
    if rs.len() == 0 {
        0
    } else {
        total_files(rs.drop_last()) + rs.last().files_modified@.len()
    }
}

/// One more modification of `f`, by a failing task where `failed`.
pub open spec fn count_file(
    m: Map<Seq<char>, (usize, usize)>,
    f: Seq<char>,
    failed: bool,
) -> Map<Seq<char>, (usize, usize)> {
    let (t, fl) = if m.dom().contains(f) {
        m[f]
    } else {
        (0usize, 0usize)
    };
    m.insert(f, ((t + 1) as usize, (if failed {
        fl + 1
    } else {
        fl as int
    }) as usize))
}

/// The counts after the files of one retrospective.
pub open spec fn count_files(
    m: Map<Seq<char>, (usize, usize)>,
    fs: Seq<Seq<char>>,
    failed: bool,
) -> Map<Seq<char>, (usize, usize)>
    decreases fs.len(),
{
    if fs.len() == 0 {
        m
    } else {
        count_file(count_files(m, fs.drop_last(), failed), fs.last(), failed)
    }
}

/// For each file, how often the retrospectives modified it and how often a
/// failing one did.
pub open spec fn file_tally(rs: Seq<RetroFacts>) -> Map<Seq<char>, (usize, usize)>
    decreases rs.len(),
{
    if rs.len() == 0 {
        Map::empty()
    } else {
        count_files(
            file_tally(rs.drop_last()),
            string_views(rs.last().files_modified@),
            !rs.last().is_success,
        )
    }
}

/// The key an error is grouped under: past 100 characters, its first 100
/// characters and `...`.
pub open spec fn error_key(e: Seq<char>) -> Seq<char> {
    if e.len() > ERROR_KEY_CHARS {
        e.take(ERROR_KEY_CHARS as int) + "..."@
    } else {
        e
    }
}

/// The key an error is grouped under.
fn error_key_of(e: &str) -> (r: String)
    ensures
        r@ == error_key(e@),
{
    let cs = chars_of(e);
    if cs.len() > ERROR_KEY_CHARS {
        let mut out = slice_range(cs.as_slice(), 0, ERROR_KEY_CHARS);
        proof {
            assert(cs@.subrange(0, ERROR_KEY_CHARS as int) =~= cs@.take(ERROR_KEY_CHARS as int));
        }
        extend_str(&mut out, "...");
        string_of(out.as_slice())
    } else {
        string_of(cs.as_slice())
    }
}

/// For each error key, how many retrospectives ended with it.
pub open spec fn error_tally(rs: Seq<RetroFacts>) -> Map<Seq<char>, usize>
    decreases rs.len(),
{
    if rs.len() == 0 {
        Map::empty()
    } else {
        let m = error_tally(rs.drop_last());
        match rs.last().last_error {
            Some(e) => {
                let k = error_key(e@);
                m.insert(k, (if m.dom().contains(k) {
                    m[k] + 1
                } else {
                    1
                }) as usize)
            },
            None => m,
        }
    }
}

/// The number of retrospectives that succeeded.
pub open spec fn success_count(rs: Seq<RetroFacts>) -> nat
    decreases rs.len(),
{
    if rs.len() == 0 {
        0
    } else {
        success_count(rs.drop_last()) + if rs.last().is_success {
            1nat
        } else {
            0nat
        }
    }
}

proof fn lemma_total_files_take(rs: Seq<RetroFacts>, i: int)
    requires
        0 <= i <= rs.len(),
    ensures
        total_files(rs.take(i)) <= total_files(rs),
    decreases rs.len() - i,
{
    if i < rs.len() {
        assert(rs.take(i + 1).drop_last() =~= rs.take(i));
        lemma_total_files_take(rs, i + 1);
    } else {
        assert(rs.take(i) =~= rs);
    }
}

/// Adds the files of one retrospective to the counts.
fn add_files(
    tally: &mut KeyedList<(usize, usize)>,
    files: &Vec<String>,
    failed: bool,
    Ghost(bound): Ghost<nat>,
)
    requires
        old(tally).wf(),
        bound + files@.len() <= usize::MAX,
        forall|k: Seq<char>| #[trigger] old(tally)@.dom().contains(k) ==> old(tally)@[k].0 <= bound
            && old(tally)@[k].1 <= old(tally)@[k].0,
    ensures
        final(tally).wf(),
        final(tally)@ == count_files(old(tally)@, string_views(files@), failed),
        forall|k: Seq<char>| #[trigger] final(tally)@.dom().contains(k) ==> final(tally)@[k].0 <= bound
            + files@.len() && final(tally)@[k].1 <= final(tally)@[k].0,
{
    let ghost fs = string_views(files@);
    let ghost start = tally@;
    let mut j: usize = 0;
    proof {
        assert(fs.take(0) =~= Seq::<Seq<char>>::empty());
    }
    while j < files.len()
        invariant
            0 <= j <= files@.len(),
            fs == string_views(files@),
            bound + files@.len() <= usize::MAX,
            tally.wf(),
            tally@ == count_files(start, fs.take(j as int), failed),
            forall|k: Seq<char>| #[trigger] tally@.dom().contains(k) ==> tally@[k].0 <= bound + j
                && tally@[k].1 <= tally@[k].0,
        decreases files@.len() - j,
    {
        let f = &files[j];
        proof {
            assert(fs.take(j + 1).drop_last() =~= fs.take(j as int));
            assert(fs.take(j + 1).last() == f@);
        }
        let ghost before = tally@;
        let (t, fl) = match tally.get(f.as_str()) {
            Some(c) => *c,
            None => (0, 0),
        };
        let nfl = if failed {
            fl + 1
        } else {
            fl
        };
        tally.set(f.as_str(), (t + 1, nfl));
        proof {
            assert(tally@ =~= count_file(before, f@, failed));
            assert forall|k: Seq<char>| #[trigger] tally@.dom().contains(k) implies tally@[k].0
                <= bound + j + 1 && tally@[k].1 <= tally@[k].0 by {
                if k != f@ {
                    assert(before.dom().contains(k));
                }
            }
        }
        j = j + 1;
    }
    proof {
        assert(fs.take(j as int) =~= fs);
    }
}

// ============================================================================
// Ranking
// ============================================================================

/// `a` ranks at least as high as `b`, each a count over a positive total:
/// `a.0 / a.1 >= b.0 / b.1`.
pub open spec fn ranks_at_least(a: (usize, usize), b: (usize, usize)) -> bool {
    a.0 * b.1 >= b.0 * a.1
}

proof fn lemma_ranks_transitive(a: (usize, usize), b: (usize, usize), c: (usize, usize))
    requires
        b.1 > 0,
        ranks_at_least(a, b),
        ranks_at_least(b, c),
    ensures
        ranks_at_least(a, c),
{
    let (a0, a1, b0, b1, c0, c1) = (a.0 as int, a.1 as int, b.0 as int, b.1 as int, c.0 as int, c.1 as int);
    assert(a0 * b1 * c1 >= b0 * a1 * c1) by (nonlinear_arith)
        requires
            a0 * b1 >= b0 * a1,
            c1 >= 0,
    ;
    assert(b0 * a1 * c1 >= c0 * a1 * b1) by (nonlinear_arith)
        requires
            b0 * c1 >= c0 * b1,
            a1 >= 0,
    ;
    assert(a0 * c1 >= c0 * a1) by (nonlinear_arith)
        requires
            a0 * b1 * c1 >= c0 * a1 * b1,
            b1 > 0,
    ;
}

proof fn lemma_ranks_total(a: (usize, usize), b: (usize, usize))
    ensures
        ranks_at_least(a, b) || ranks_at_least(b, a),
{
}

/// Whether `a` ranks at least as high as `b`.
fn rank_at_least(a: (usize, usize), b: (usize, usize)) -> (r: bool)
    ensures
        r == ranks_at_least(a, b),
{
    let (a0, a1, b0, b1) = (a.0 as u128, a.1 as u128, b.0 as u128, b.1 as u128);
    assert(a0 * b1 <= 0xffff_ffff_ffff_ffff * 0xffff_ffff_ffff_ffff) by (nonlinear_arith)
        requires
            a0 <= 0xffff_ffff_ffff_ffff,
            b1 <= 0xffff_ffff_ffff_ffff,
    ;
    assert(b0 * a1 <= 0xffff_ffff_ffff_ffff * 0xffff_ffff_ffff_ffff) by (nonlinear_arith)
        requires
            b0 <= 0xffff_ffff_ffff_ffff,
            a1 <= 0xffff_ffff_ffff_ffff,
    ;
    let x: u128 = a0 * b1;
    let y: u128 = b0 * a1;
    x >= y
}

/// `picked` lists distinct positions of `scores`, each ranking at least as
/// high as the ones after it and as every position not listed.
pub open spec fn ranked_selection(scores: Seq<(usize, usize)>, picked: Seq<usize>) -> bool {
    &&& forall|i: int| 0 <= i < picked.len() ==> #[trigger] picked[i] < scores.len()
    &&& forall|i: int, j: int| 0 <= i < j < picked.len() ==> #[trigger] picked[i] != #[trigger] picked[j]
    &&& forall|i: int, j: int|
        0 <= i < j < picked.len() ==> ranks_at_least(
            scores[#[trigger] picked[i] as int],
            scores[#[trigger] picked[j] as int],
        )
    &&& forall|i: int, u: int|
        0 <= i < picked.len() && 0 <= u < scores.len() && !picked.contains(u as usize)
            ==> ranks_at_least(scores[#[trigger] picked[i] as int], #[trigger] scores[u])
}

/// The positions of the `k` highest-ranked scores (all of them where there
/// are fewer), highest first; among equals, the earlier position first.
fn top_ranked(scores: &Vec<(usize, usize)>, k: usize) -> (picked: Vec<usize>)
    requires
        forall|i: int| 0 <= i < scores@.len() ==> #[trigger] scores@[i].1 > 0,
    ensures
        ranked_selection(scores@, picked@),
        picked@.len() == if scores@.len() < k {
            scores@.len()
        } else {
            k as nat
        },
        picked@.len() < k ==> forall|u: usize| u < scores@.len() ==> #[trigger] picked@.contains(u),
{
    let n = scores.len();
    let mut taken: Vec<bool> = Vec::new();
    let mut t: usize = 0;
    while t < n
        invariant
            0 <= t <= n,
            n == scores@.len(),
            taken@.len() == t,
            forall|i: int| 0 <= i < t ==> !#[trigger] taken@[i],
        decreases n - t,
    {
        taken.push(false);
        t = t + 1;
    }
    let mut picked: Vec<usize> = Vec::new();
    proof {
        lemma_untaken_all(taken@);
    }
    while picked.len() < k && picked.len() < n
        invariant
            n == scores@.len(),
            taken@.len() == n,
            forall|i: int| 0 <= i < scores@.len() ==> #[trigger] scores@[i].1 > 0,
            ranked_selection(scores@, picked@),
            picked@.len() <= n,
            picked@.len() <= k,
            forall|u: int| 0 <= u < n ==> (#[trigger] taken@[u] <==> picked@.contains(u as usize)),
            count_untaken(taken@) + picked@.len() == n,
        decreases n - picked@.len(),
    {
        proof {
            lemma_untaken_exists(taken@);
        }
        let mut best: usize = 0;
        let mut found = false;
        let mut j: usize = 0;
        while j < n
            invariant
                n == scores@.len(),
                taken@.len() == n,
                0 <= j <= n,
                forall|i: int| 0 <= i < scores@.len() ==> #[trigger] scores@[i].1 > 0,
                found ==> best < j && !taken@[best as int],
                found ==> forall|u: int| 0 <= u < j && !#[trigger] taken@[u] ==> ranks_at_least(
                    scores@[best as int],
                    scores@[u],
                ),
                !found ==> forall|u: int| 0 <= u < j ==> #[trigger] taken@[u],
            decreases n - j,
        {
            if !taken[j] {
                if !found || !rank_at_least(scores[best], scores[j]) {
                    proof {
                        if found {
                            lemma_ranks_total(scores@[best as int], scores@[j as int]);
                            assert forall|u: int| 0 <= u < j + 1 && !#[trigger] taken@[u] implies ranks_at_least(
                                scores@[j as int],
                                scores@[u],
                            ) by {
                                if u < j {
                                    lemma_ranks_transitive(
                                        scores@[j as int],
                                        scores@[best as int],
                                        scores@[u],
                                    );
                                } else {
                                    assert(scores@[j as int].0 * scores@[j as int].1 >= scores@[j as int].0 * scores@[j as int].1);
                                }
                            }
                        } else {
                            assert forall|u: int| 0 <= u < j + 1 && !#[trigger] taken@[u] implies ranks_at_least(
                                scores@[j as int],
                                scores@[u],
                            ) by {
                                assert(u == j);
                            }
                        }
                    }
                    best = j;
                    found = true;
                }
            }
            j = j + 1;
        }
        let ghost old_picked = picked@;
        let ghost old_taken = taken@;
        proof {
            lemma_untaken_take(taken@, best as int);
        }
        taken.set(best, true);
        picked.push(best);
        proof {
            assert(picked@ == old_picked.push(best));
            assert forall|u: int| 0 <= u < n implies (#[trigger] taken@[u] <==> picked@.contains(
                u as usize,
            )) by {
                if u == best {
                    assert(picked@[old_picked.len() as int] == best);
                } else {
                    if old_picked.contains(u as usize) {
                        let w = choose|w: int| 0 <= w < old_picked.len() && old_picked[w] == u as usize;
                        assert(picked@[w] == u as usize);
                    }
                    if picked@.contains(u as usize) {
                        let w = choose|w: int| 0 <= w < picked@.len() && picked@[w] == u as usize;
                        assert(w < old_picked.len());
                        assert(old_picked[w] == u as usize);
                    }
                }
            }
            assert forall|i: int, j2: int| 0 <= i < j2 < picked@.len() implies #[trigger] picked@[i]
                != #[trigger] picked@[j2] by {
                if j2 == old_picked.len() {
                    assert(old_picked.contains(picked@[i]));
                    assert(old_taken[picked@[i] as int]);
                }
            }
            assert forall|i: int, j2: int| 0 <= i < j2 < picked@.len() implies ranks_at_least(
                scores@[#[trigger] picked@[i] as int],
                scores@[#[trigger] picked@[j2] as int],
            ) by {
                if j2 == old_picked.len() {
                    assert(!old_picked.contains(best));
                    assert(old_picked[i] == picked@[i]);
                }
            }
            assert forall|i: int, u: int|
                0 <= i < picked@.len() && 0 <= u < scores@.len() && !picked@.contains(u as usize)
                    implies ranks_at_least(scores@[#[trigger] picked@[i] as int], #[trigger] scores@[u]) by {
                if i < old_picked.len() {
                    assert(old_picked[i] == picked@[i]);
                    if old_picked.contains(u as usize) {
                        let w = choose|w: int| 0 <= w < old_picked.len() && old_picked[w] == u as usize;
                        assert(picked@[w] == u as usize);
                    }
                } else {
                    assert(picked@[i] == best);
                    if old_picked.contains(u as usize) {
                        let w = choose|w: int| 0 <= w < old_picked.len() && old_picked[w] == u as usize;
                        assert(picked@[w] == u as usize);
                    }
                    assert(!old_taken[u]);
                }
            }
        }
    }
    proof {
        if picked@.len() < k {
            lemma_untaken_none(taken@);
            assert forall|u: usize| u < scores@.len() implies #[trigger] picked@.contains(u) by {
                assert(taken@[u as int]);
            }
        }
    }
    picked
}

/// The number of positions not yet taken.
pub open spec fn count_untaken(s: Seq<bool>) -> nat
    decreases s.len(),
{
    if s.len() == 0 {
        0
    } else {
        count_untaken(s.drop_last()) + if s.last() {
            0nat
        } else {
            1nat
        }
    }
}

proof fn lemma_untaken_exists(s: Seq<bool>)
    requires
        count_untaken(s) > 0,
    ensures
        exists|i: int| 0 <= i < s.len() && !#[trigger] s[i],
    decreases s.len(),
{
    if !s.last() {
        assert(!s[s.len() - 1]);
    } else {
        lemma_untaken_exists(s.drop_last());
        let i = choose|i: int| 0 <= i < s.len() - 1 && !#[trigger] s.drop_last()[i];
        assert(!s[i]);
    }
}

proof fn lemma_untaken_take(s: Seq<bool>, i: int)
    requires
        0 <= i < s.len(),
        !s[i],
    ensures
        count_untaken(s.update(i, true)) + 1 == count_untaken(s),
    decreases s.len(),
{
    if i == s.len() - 1 {
        assert(s.update(i, true).drop_last() =~= s.drop_last());
    } else {
        lemma_untaken_take(s.drop_last(), i);
        assert(s.update(i, true).drop_last() =~= s.drop_last().update(i, true));
    }
}

proof fn lemma_untaken_all(s: Seq<bool>)
    requires
        forall|i: int| 0 <= i < s.len() ==> !#[trigger] s[i],
    ensures
        count_untaken(s) == s.len(),
    decreases s.len(),
{
    if s.len() > 0 {
        assert forall|i: int| 0 <= i < s.len() - 1 implies !#[trigger] s.drop_last()[i] by {
            assert(!s[i]);
        }
        lemma_untaken_all(s.drop_last());
    }
}

proof fn lemma_untaken_none(s: Seq<bool>)
    requires
        count_untaken(s) == 0,
    ensures
        forall|i: int| 0 <= i < s.len() ==> #[trigger] s[i],
    decreases s.len(),
{
    if s.len() > 0 {
        lemma_untaken_none(s.drop_last());
        assert forall|i: int| 0 <= i < s.len() implies #[trigger] s[i] by {
            if i < s.len() - 1 {
                assert(s.drop_last()[i] == s[i]);
            }
        }
    }
}

// ============================================================================
// Listings
// ============================================================================

/// The ranking score of each risky file: its failures over its
/// modifications, for files modified at least twice and by a failing task.
pub open spec fn file_scores(t: Map<Seq<char>, (usize, usize)>) -> Map<Seq<char>, (usize, usize)> {
    Map::new(
        |k: Seq<char>| t.dom().contains(k) && t[k].0 >= 2 && t[k].1 > 0,
        |k: Seq<char>| (t[k].1, t[k].0),
    )
}

/// The ranking score of each error: its count.
pub open spec fn error_scores(t: Map<Seq<char>, usize>) -> Map<Seq<char>, (usize, usize)> {
    Map::new(|k: Seq<char>| t.dom().contains(k), |k: Seq<char>| (t[k], 1usize))
}

/// `listed` holds at most ten of the scored keys with their scores, no key
/// twice, highest first; a key left out ranks no higher than any listed one,
/// and is left out only where ten are listed.
pub open spec fn top_listing(
    scores: Map<Seq<char>, (usize, usize)>,
    listed: Seq<(Seq<char>, (usize, usize))>,
) -> bool {
    &&& listed.len() <= MAX_LISTED
    &&& forall|i: int|
        0 <= i < listed.len() ==> scores.dom().contains(#[trigger] listed[i].0) && scores[listed[i].0]
            == listed[i].1
    &&& forall|i: int, j: int| 0 <= i < j < listed.len() ==> #[trigger] listed[i].0 != #[trigger] listed[j].0
    &&& forall|i: int, j: int|
        0 <= i < j < listed.len() ==> ranks_at_least(#[trigger] listed[i].1, #[trigger] listed[j].1)
    &&& forall|k: Seq<char>|
        #[trigger] scores.dom().contains(k) && (forall|i: int| 0 <= i < listed.len() ==> listed[i].0 != k)
            ==> listed.len() == MAX_LISTED && forall|i: int|
            0 <= i < listed.len() ==> ranks_at_least(#[trigger] listed[i].1, scores[k])
}

/// Risky files as keys and scores.
pub open spec fn risky_view(v: Seq<RiskyFile>) -> Seq<(Seq<char>, (usize, usize))> {
    v.map_values(|f: RiskyFile| (f.path@, (f.failures, f.occurrences)))
}

/// Common errors as keys and scores.
pub open spec fn errors_view(v: Seq<CommonError>) -> Seq<(Seq<char>, (usize, usize))> {
    v.map_values(|e: CommonError| (e.error@, (e.count, 1usize)))
}

/// The scored keys, in a list: keys and scores side by side, every scored
/// key once, every score positive over its total.
pub open spec fn candidates_of(
    scores: Map<Seq<char>, (usize, usize)>,
    keys: Seq<Seq<char>>,
    vals: Seq<(usize, usize)>,
) -> bool {
    &&& keys.len() == vals.len()
    &&& forall|i: int| 0 <= i < keys.len() ==> scores.dom().contains(#[trigger] keys[i]) && scores[keys[i]] == vals[i]
    &&& forall|i: int, j: int| 0 <= i < j < keys.len() ==> #[trigger] keys[i] != #[trigger] keys[j]
    &&& forall|k: Seq<char>| #[trigger] scores.dom().contains(k) ==> exists|i: int| 0 <= i < keys.len() && keys[i] == k
    &&& forall|i: int| 0 <= i < vals.len() ==> #[trigger] vals[i].1 > 0
}

/// The risky files of a file tally, in the tally's order.
fn file_candidates(tally: &KeyedList<(usize, usize)>) -> (r: (Vec<String>, Vec<(usize, usize)>))
    requires
        tally.wf(),
    ensures
        candidates_of(file_scores(tally@), string_views(r.0@), r.1@),
{
    let ghost es = tally.entries();
    let ghost sc = file_scores(tally@);
    let mut keys: Vec<String> = Vec::new();
    let mut vals: Vec<(usize, usize)> = Vec::new();
    let ghost mut src: Seq<int> = Seq::empty();
    let mut i: usize = 0;
    while i < tally.len()
        invariant
            0 <= i <= es.len(),
            es == tally.entries(),
            sc == file_scores(tally@),
            tally.wf(),
            keys@.len() == vals@.len(),
            src.len() == keys@.len(),
            forall|m: int| 0 <= m < src.len() ==> 0 <= #[trigger] src[m] < i && string_views(keys@)[m] == es[src[m]].0,
            forall|m: int, m2: int| 0 <= m < m2 < src.len() ==> #[trigger] src[m] < #[trigger] src[m2],
            forall|m: int| 0 <= m < keys@.len() ==> sc.dom().contains(#[trigger] string_views(keys@)[m])
                && sc[string_views(keys@)[m]] == vals@[m],
            forall|m: int| 0 <= m < vals@.len() ==> #[trigger] vals@[m].1 > 0,
            forall|x: int| 0 <= x < i && (#[trigger] es[x]).1.0 >= 2 && es[x].1.1 > 0 ==> exists|m: int|
                0 <= m < keys@.len() && string_views(keys@)[m] == es[x].0,
        decreases es.len() - i,
    {
        let (k, c) = tally.entry(i);
        proof {
            lemma_keyed_value(es, i as int);
        }
        if c.0 >= 2 && c.1 > 0 {
            let ghost old_keys = string_views(keys@);
            keys.push(k.clone());
            vals.push((c.1, c.0));
            proof {
                src = src.push(i as int);
                assert(string_views(keys@) =~= old_keys.push(k@));
                assert forall|x: int| 0 <= x < i + 1 && (#[trigger] es[x]).1.0 >= 2 && es[x].1.1 > 0 implies exists|m: int|
                    0 <= m < keys@.len() && string_views(keys@)[m] == es[x].0 by {
                    if x == i {
                        assert(string_views(keys@)[keys@.len() - 1] == es[x].0);
                    } else {
                        let m = choose|m: int| 0 <= m < old_keys.len() && old_keys[m] == es[x].0;
                        assert(string_views(keys@)[m] == es[x].0);
                    }
                }
            }
        }
        i = i + 1;
    }
    proof {
        let kv = string_views(keys@);
        assert forall|m: int, m2: int| 0 <= m < m2 < kv.len() implies #[trigger] kv[m] != #[trigger] kv[m2] by {
            assert(src[m] < src[m2]);
        }
        assert forall|k: Seq<char>| #[trigger] sc.dom().contains(k) implies exists|m: int| 0 <= m < kv.len() && kv[m] == k by {
            lemma_keyed_domain(es, k);
            let x = choose|x: int| 0 <= x < es.len() && #[trigger] es[x].0 == k;
            lemma_keyed_value(es, x);
        }
    }
    (keys, vals)
}

/// The errors of an error tally, in the tally's order.
fn error_candidates(tally: &KeyedList<usize>) -> (r: (Vec<String>, Vec<(usize, usize)>))
    requires
        tally.wf(),
    ensures
        candidates_of(error_scores(tally@), string_views(r.0@), r.1@),
{
    let ghost es = tally.entries();
    let ghost sc = error_scores(tally@);
    let mut keys: Vec<String> = Vec::new();
    let mut vals: Vec<(usize, usize)> = Vec::new();
    let mut i: usize = 0;
    while i < tally.len()
        invariant
            0 <= i <= es.len(),
            es == tally.entries(),
            sc == error_scores(tally@),
            tally.wf(),
            keys@.len() == vals@.len(),
            keys@.len() == i,
            forall|m: int| 0 <= m < i ==> string_views(keys@)[m] == (#[trigger] es[m]).0,
            forall|m: int| 0 <= m < keys@.len() ==> sc.dom().contains(#[trigger] string_views(keys@)[m])
                && sc[string_views(keys@)[m]] == vals@[m],
            forall|m: int| 0 <= m < vals@.len() ==> #[trigger] vals@[m].1 > 0,
        decreases es.len() - i,
    {
        let (k, c) = tally.entry(i);
        proof {
            lemma_keyed_value(es, i as int);
        }
        let ghost old_keys = string_views(keys@);
        keys.push(k.clone());
        vals.push((*c, 1));
        proof {
            assert(string_views(keys@) =~= old_keys.push(k@));
        }
        i = i + 1;
    }
    proof {
        let kv = string_views(keys@);
        assert forall|m: int, m2: int| 0 <= m < m2 < kv.len() implies #[trigger] kv[m] != #[trigger] kv[m2] by {
            assert(kv[m] == es[m].0 && kv[m2] == es[m2].0);
        }
        assert forall|k: Seq<char>| #[trigger] sc.dom().contains(k) implies exists|m: int| 0 <= m < kv.len() && kv[m] == k by {
            lemma_keyed_domain(es, k);
            let x = choose|x: int| 0 <= x < es.len() && #[trigger] es[x].0 == k;
            assert(kv[x] == k);
        }
    }
    (keys, vals)
}

/// Ranking the candidates and keeping the first ten gives a top listing.
proof fn lemma_top_listing(
    scores: Map<Seq<char>, (usize, usize)>,
    keys: Seq<Seq<char>>,
    vals: Seq<(usize, usize)>,
    picked: Seq<usize>,
    listed: Seq<(Seq<char>, (usize, usize))>,
)
    requires
        candidates_of(scores, keys, vals),
        vals.len() <= usize::MAX,
        ranked_selection(vals, picked),
        picked.len() == if vals.len() < MAX_LISTED {
            vals.len()
        } else {
            MAX_LISTED as nat
        },
        picked.len() < MAX_LISTED ==> forall|u: usize| u < vals.len() ==> #[trigger] picked.contains(u),
        listed.len() == picked.len(),
        forall|i: int| 0 <= i < listed.len() ==> #[trigger] listed[i] == (keys[picked[i] as int], vals[picked[i] as int]),
    ensures
        top_listing(scores, listed),
{
    assert forall|i: int| 0 <= i < listed.len() implies scores.dom().contains(#[trigger] listed[i].0)
        && scores[listed[i].0] == listed[i].1 by {
        assert(picked[i] < vals.len());
    }
    assert forall|i: int, j: int| 0 <= i < j < listed.len() implies #[trigger] listed[i].0 != #[trigger] listed[j].0 by {
        assert(picked[i] != picked[j]);
        assert(picked[i] < keys.len() && picked[j] < keys.len());
        if picked[i] < picked[j] {
            assert(keys[picked[i] as int] != keys[picked[j] as int]);
        } else {
            assert(keys[picked[j] as int] != keys[picked[i] as int]);
        }
    }
    assert forall|i: int, j: int| 0 <= i < j < listed.len() implies ranks_at_least(#[trigger] listed[i].1, #[trigger] listed[j].1) by {
        assert(ranks_at_least(vals[picked[i] as int], vals[picked[j] as int]));
    }
    assert forall|k: Seq<char>|
        #[trigger] scores.dom().contains(k) && (forall|i: int| 0 <= i < listed.len() ==> listed[i].0 != k)
            implies listed.len() == MAX_LISTED && forall|i: int|
            0 <= i < listed.len() ==> ranks_at_least(#[trigger] listed[i].1, scores[k]) by {
        let u = choose|u: int| 0 <= u < keys.len() && keys[u] == k;
        assert((u as usize) as int == u);
        if picked.contains(u as usize) {
            let w = choose|w: int| 0 <= w < picked.len() && picked[w] == u as usize;
            assert(listed[w].0 == k);
        }
        if picked.len() < MAX_LISTED {
            assert(picked.contains(u as usize));
        }
        assert forall|i: int| 0 <= i < listed.len() implies ranks_at_least(#[trigger] listed[i].1, scores[k]) by {
            assert(ranks_at_least(vals[picked[i] as int], vals[u]));
        }
    }
}

/// The ten highest-ranked candidates, highest first.
fn top_candidates(keys: &Vec<String>, vals: &Vec<(usize, usize)>, Ghost(scores): Ghost<
    Map<Seq<char>, (usize, usize)>,
>) -> (listed: Vec<(String, (usize, usize))>)
    requires
        candidates_of(scores, string_views(keys@), vals@),
    ensures
        top_listing(scores, listed@.map_values(|p: (String, (usize, usize))| (p.0@, p.1))),
{
    let picked = top_ranked(vals, MAX_LISTED);
    let mut listed: Vec<(String, (usize, usize))> = Vec::new();
    let mut i: usize = 0;
    while i < picked.len()
        invariant
            0 <= i <= picked@.len(),
            candidates_of(scores, string_views(keys@), vals@),
            ranked_selection(vals@, picked@),
            listed@.len() == i,
            forall|m: int| 0 <= m < i ==> (#[trigger] listed@[m]).0@ == string_views(keys@)[picked@[m] as int]
                && listed@[m].1 == vals@[picked@[m] as int],
        decreases picked@.len() - i,
    {
        let p = picked[i];
        listed.push((keys[p].clone(), vals[p]));
        i = i + 1;
    }
    proof {
        let lv = listed@.map_values(|p: (String, (usize, usize))| (p.0@, p.1));
        assert(vals@.len() == vals.len());
        lemma_top_listing(scores, string_views(keys@), vals@, picked@, lv);
    }
    listed
}

// ============================================================================
// The insights
// ============================================================================

/// The counted insights over a project's retrospectives: how many there are
/// and succeeded, the ten riskiest files (highest share of failing tasks
/// among files modified at least twice and by a failing task), and the ten
/// most frequent errors (grouped by their first 100 characters).
pub fn insight_counts(retros: &[RetroFacts]) -> (r: InsightCounts)
    requires
        total_files(retros@) <= usize::MAX,
    ensures
        r.total_retrospectives == retros@.len(),
        r.successes == success_count(retros@),
        top_listing(file_scores(file_tally(retros@)), risky_view(r.risky_files@)),
        top_listing(error_scores(error_tally(retros@)), errors_view(r.common_errors@)),
{
    let mut files: KeyedList<(usize, usize)> = KeyedList::new();
    let mut errors: KeyedList<usize> = KeyedList::new();
    let mut successes: usize = 0;
    let mut i: usize = 0;
    proof {
        assert(retros@.take(0) =~= Seq::<RetroFacts>::empty());
    }
    while i < retros.len()
        invariant
            0 <= i <= retros@.len(),
            total_files(retros@) <= usize::MAX,
            files.wf(),
            errors.wf(),
            files@ == file_tally(retros@.take(i as int)),
            errors@ == error_tally(retros@.take(i as int)),
            successes == success_count(retros@.take(i as int)),
            successes <= i,
            forall|k: Seq<char>| #[trigger] files@.dom().contains(k) ==> files@[k].0 <= total_files(
                retros@.take(i as int),
            ) && files@[k].1 <= files@[k].0,
            forall|k: Seq<char>| #[trigger] errors@.dom().contains(k) ==> errors@[k] <= i,
        decreases retros@.len() - i,
    {
        let r = &retros[i];
        proof {
            assert(retros@.take(i + 1).drop_last() =~= retros@.take(i as int));
            assert(retros@.take(i + 1).last() == retros@[i as int]);
            lemma_total_files_take(retros@, i + 1);
        }
        if r.is_success {
            successes = successes + 1;
        }
        add_files(&mut files, &r.files_modified, !r.is_success, Ghost(total_files(retros@.take(i as int))));
        match &r.last_error {
            Some(e) => {
                let key = error_key_of(e.as_str());
                let ghost before = errors@;
                let n: usize = match errors.get(key.as_str()) {
                    Some(c) => *c + 1,
                    None => 1,
                };
                errors.set(key.as_str(), n);
                proof {
                    assert forall|k: Seq<char>| #[trigger] errors@.dom().contains(k) implies errors@[k] <= i + 1 by {
                        if k != key@ {
                            assert(before.dom().contains(k));
                        }
                    }
                }
            },
            None => {},
        }
        i = i + 1;
    }
    proof {
        assert(retros@.take(i as int) =~= retros@);
    }
    let (fkeys, fvals) = file_candidates(&files);
    let top_files = top_candidates(&fkeys, &fvals, Ghost(file_scores(files@)));
    let (ekeys, evals) = error_candidates(&errors);
    let top_errors = top_candidates(&ekeys, &evals, Ghost(error_scores(errors@)));
    let mut risky_files: Vec<RiskyFile> = Vec::new();
    let mut j: usize = 0;
    while j < top_files.len()
        invariant
            0 <= j <= top_files@.len(),
            risky_files@.len() == j,
            forall|m: int| 0 <= m < j ==> (#[trigger] risky_view(risky_files@)[m]) == (top_files@[m].0@, top_files@[m].1),
        decreases top_files@.len() - j,
    {
        let (p, v) = &top_files[j];
        let ghost old_rf = risky_files@;
        risky_files.push(RiskyFile { path: p.clone(), failures: v.0, occurrences: v.1 });
        proof {
            assert(risky_view(risky_files@) =~= risky_view(old_rf).push((p@, *v)));
        }
        j = j + 1;
    }
    let mut common_errors: Vec<CommonError> = Vec::new();
    let mut j: usize = 0;
    let ghost ev = top_errors@.map_values(|p: (String, (usize, usize))| (p.0@, p.1));
    while j < top_errors.len()
        invariant
            0 <= j <= top_errors@.len(),
            ev == top_errors@.map_values(|p: (String, (usize, usize))| (p.0@, p.1)),
            top_listing(error_scores(errors@), ev),
            common_errors@.len() == j,
            forall|m: int| 0 <= m < j ==> (#[trigger] errors_view(common_errors@)[m]) == ev[m],
        decreases top_errors@.len() - j,
    {
        let (e, v) = &top_errors[j];
        proof {
            assert(ev[j as int] == (e@, *v));
            assert(error_scores(errors@).dom().contains(ev[j as int].0));
            assert(error_scores(errors@)[e@] == *v);
        }
        let ghost old_ce = common_errors@;
        common_errors.push(CommonError { error: e.clone(), count: v.0 });
        proof {
            assert(errors_view(common_errors@) =~= errors_view(old_ce).push((e@, *v)));
        }
        j = j + 1;
    }
    proof {
        assert(risky_view(risky_files@) =~= top_files@.map_values(|p: (String, (usize, usize))| (p.0@, p.1)));
        assert(errors_view(common_errors@) =~= ev);
    }
    InsightCounts {
        total_retrospectives: retros.len(),
        successes,
        risky_files,
        common_errors,
    }
}

/// A page of retrospectives and how many it holds.
#[derive(Debug, Clone)]
pub struct ListRetrospectivesResponse<T> {
    pub items: Vec<T>,
    pub total: usize,
}

impl<T> ListRetrospectivesResponse<T> {
    /// The reply for a page of retrospectives.
    pub fn new(items: Vec<T>) -> (r: ListRetrospectivesResponse<T>)
        ensures
            r.items@ == items@,
            r.total == items@.len(),
    {
        let total = items.len();
        ListRetrospectivesResponse { items, total }
    }
}

} // verus!
