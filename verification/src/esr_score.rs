//! The scores of one package, the bookkeeping of a batch of scorings that
//! run side by side, and the ranking of what a batch gave.

use vstd::prelude::*;
use vstd::string::*;

use crate::esr_crate::{CrateInfo, CrateInfoWithScore};
use crate::esr_errors::EsrError;
use crate::esr_github::RepoInfoWithScore;
use crate::esr_util::{
    github_repo, has_repo_path_shape, is_repo_path, spec_github_repo, spec_strip_git, strip_git,
};

verus! {

// ---------------------------------------------------------------------------
// The scores of one package
// ---------------------------------------------------------------------------

/// What is scored.
#[derive(Debug, Clone, Copy, PartialEq, Eq)]
pub enum ScoreMode {
    CrateAndRepo,
    CrateOnly,
    RepoOnly,
}

impl ScoreMode {
    /// The mode that the two switches ask for: the package alone where the
    /// first is set, else the repository alone where the second is, else both.
    pub fn from_flags(crate_only: bool, repo_only: bool) -> (mode: ScoreMode)
        ensures
            mode == if crate_only {
                ScoreMode::CrateOnly
            } else if repo_only {
                ScoreMode::RepoOnly
            } else {
                ScoreMode::CrateAndRepo
            },
    {
        if crate_only {
            ScoreMode::CrateOnly
        } else if repo_only {
            ScoreMode::RepoOnly
        } else {
            ScoreMode::CrateAndRepo
        }
    }
}

/// The scores of a package, of its repository, or of both.
#[derive(Debug)]
pub enum Scores {
    CrateAndRepo(CrateInfoWithScore, Result<RepoInfoWithScore, EsrError>),
    CrateOnly(CrateInfoWithScore),
    RepoOnly(RepoInfoWithScore),
}

impl Scores {
    /// The score by which the scores are ranked, in billionths: that of the
    /// package where there is one, else that of the repository; the positive
    /// score alone where `sort_positive` is set, else the positive and the
    /// negative score together.
    pub open spec fn spec_sort_score(&self, sort_positive: bool) -> int {
        match self {
            Scores::CrateAndRepo(cr_score, _) | Scores::CrateOnly(cr_score) => if sort_positive {
                cr_score@.score_positive
            } else {
                cr_score@.score_positive + cr_score@.score_negative
            },
            Scores::RepoOnly(repo_score) => if sort_positive {
                repo_score@.score_positive
            } else {
                repo_score@.score_positive + repo_score@.score_negative
            },
        }
    }

    /// The scores of a package with what came of scoring its repository;
    /// those of the package alone where it names no repository.
    pub fn from_crate_and_repo(
        cr_score: CrateInfoWithScore,
        repo_score: Option<Result<RepoInfoWithScore, EsrError>>,
    ) -> (r: Self)
        ensures
            r == match repo_score {
                Some(repo_score_res) => Scores::CrateAndRepo(cr_score, repo_score_res),
                None => Scores::CrateOnly(cr_score),
            },
    {
        match repo_score {
            Some(repo_score_res) => Scores::CrateAndRepo(cr_score, repo_score_res),
            None => Scores::CrateOnly(cr_score),
        }
    }

    /// The repository to score in place of a package: the one that the
    /// package names. A package that names none is a `MissingData` error.
    pub fn repo_id_of_crate(cr_info: &CrateInfo) -> (r: Result<String, EsrError>)
        ensures
            match r {
                Ok(id) => cr_info@.general_info.repository is Some && spec_github_repo(
                    cr_info@.general_info.repository->Some_0,
                ) == Some(id@) && is_repo_path(id@),
                Err(e) => (cr_info@.general_info.repository is None || spec_github_repo(
                    cr_info@.general_info.repository->Some_0,
                ) is None) && e is MissingData && e->MissingData_0@
                    == "repo-only score requested but failed to get GitHub id"@,
            },
    {
        match cr_info.github_id() {
            Some(id) => Ok(id),
            None => Err(
                EsrError::MissingData(
                    String::from_str("repo-only score requested but failed to get GitHub id"),
                ),
            ),
        }
    }

    /// The repository that is asked for: the text itself, without a `.git`
    /// at its end, where it is a repository path already; else the path found
    /// in it as in a GitHub address.
    pub open spec fn spec_repo_id_of_url(repo: Seq<char>) -> Option<Seq<char>> {
        if is_repo_path(repo) {
            Some(spec_strip_git(repo))
        } else {
            spec_github_repo(repo)
        }
    }

    /// The repository that a text stands for: the text where it is an
    /// `owner/repo` path already, without a `.git` at its end; else the path
    /// in it as in a GitHub address. A text in which none is found is a
    /// `MissingData` error.
    pub fn repo_id_of_url(repo: &str) -> (r: Result<String, EsrError>)
        ensures
            match r {
                Ok(id) => Self::spec_repo_id_of_url(repo@) == Some(id@) && is_repo_path(id@),
                Err(e) => Self::spec_repo_id_of_url(repo@) is None && e is MissingData
                    && e->MissingData_0@
                    == "repo score requested but failed to get a valid GitHub repo path"@,
            },
    {
        if has_repo_path_shape(repo) {
            return Ok(strip_git(repo));
        }
        match github_repo(repo) {
            Some(id) => Ok(id),
            None => Err(
                EsrError::MissingData(
                    String::from_str(
                        "repo score requested but failed to get a valid GitHub repo path",
                    ),
                ),
            ),
        }
    }

    /// The score by which the scores are ranked, in billionths.
    pub fn sort_score(&self, sort_positive: bool) -> (r: i128)
        ensures
            r == self.spec_sort_score(sort_positive),
    {
        let (pos, neg) = match self {
            Scores::CrateAndRepo(cr_score, _) => cr_score.get_score_tuple(),
            Scores::CrateOnly(cr_score) => cr_score.get_score_tuple(),
            Scores::RepoOnly(repo_score) => repo_score.get_score_tuple(),
        };
        if sort_positive {
            pos
        } else {
            pos + neg
        }
    }
}

// ---------------------------------------------------------------------------
// Ranking
// ---------------------------------------------------------------------------

/// Whether the item at `a` stands before the item at `b` in the ranking. The
/// key of an item is its score, or nothing where it has none. A higher score
/// comes first, any score comes before none, and of two items with the same
/// key the one that came first in the input stays first.
pub open spec fn ranks_before(keys: Seq<Option<int>>, a: int, b: int) -> bool {
    match (keys[a], keys[b]) {
        (Some(x), Some(y)) => x > y || (x == y && a < b),
        (Some(_), None) => true,
        (None, Some(_)) => false,
        (None, None) => a < b,
    }
}

/// `order` is the ranking of the items with the given keys, cut to `limit`:
/// it holds places of the input, each before the next in the ranking, and
/// every item that it leaves out comes after all that it holds.
pub open spec fn is_ranking(keys: Seq<Option<int>>, limit: nat, order: Seq<int>) -> bool {
    &&& order.len() == if limit < keys.len() {
        limit
    } else {
        keys.len()
    }
    &&& forall|k: int| 0 <= k < order.len() ==> 0 <= #[trigger] order[k] < keys.len()
    &&& forall|k1: int, k2: int|
        0 <= k1 < k2 < order.len() ==> ranks_before(keys, #[trigger] order[k1], #[trigger] order[k2])
    &&& forall|j: int, k: int|
        0 <= j < keys.len() && !order.contains(j) && 0 <= k < order.len() ==> #[trigger] ranks_before(
            keys,
            order[k],
            j,
        )
}

/// The keys behind a list of them, as integers.
pub open spec fn key_views(keys: Seq<Option<i128>>) -> Seq<Option<int>> {
    Seq::new(
        keys.len(),
        |i: int|
            match keys[i] {
                Some(key) => Some(key as int),
                None => None,
            },
    )
}

/// The places behind a list of them, as integers.
pub open spec fn place_views(order: Seq<usize>) -> Seq<int> {
    Seq::new(order.len(), |i: int| order[i] as int)
}

/// There is one ranking only.
pub proof fn lemma_ranking_unique(
    keys: Seq<Option<int>>,
    limit: nat,
    order1: Seq<int>,
    order2: Seq<int>,
)
    requires
        is_ranking(keys, limit, order1),
        is_ranking(keys, limit, order2),
    ensures
        order1 == order2,
{
    assert forall|k: int| 0 <= k < order1.len() implies order1[k] == order2[k] by {
        lemma_ranking_agree(keys, limit, order1, order2, k);
    }
    assert(order1 =~= order2);
}

/// Two rankings agree up to any place.
proof fn lemma_ranking_agree(
    keys: Seq<Option<int>>,
    limit: nat,
    order1: Seq<int>,
    order2: Seq<int>,
    k: int,
)
    requires
        is_ranking(keys, limit, order1),
        is_ranking(keys, limit, order2),
        0 <= k < order1.len(),
    ensures
        order1[k] == order2[k],
    decreases k,
{
    if k > 0 {
        lemma_ranking_agree(keys, limit, order1, order2, k - 1);
    }
    assert forall|q: int| 0 <= q < k implies order1[q] == order2[q] by {
        lemma_ranking_agree(keys, limit, order1, order2, q);
    }
    let a = order1[k];
    let b = order2[k];
    if ranks_before(keys, a, b) {
        lemma_ranked_early(keys, limit, order2, order1, k);
    } else {
        lemma_ranked_early(keys, limit, order1, order2, k);
    }
}

/// Where two rankings agree before place `k`, and the item at place `k` of
/// the one does not rank before that of the other, the two items are one.
proof fn lemma_ranked_early(
    keys: Seq<Option<int>>,
    limit: nat,
    order: Seq<int>,
    other: Seq<int>,
    k: int,
)
    requires
        is_ranking(keys, limit, order),
        is_ranking(keys, limit, other),
        0 <= k < order.len(),
        forall|q: int| 0 <= q < k ==> order[q] == other[q],
        !ranks_before(keys, order[k], other[k]),
    ensures
        other[k] == order[k],
{
    let item = other[k];
    if item != order[k] {
        assert(ranks_before(keys, item, order[k]));
        if order.contains(item) {
            let p = choose|p: int| 0 <= p < order.len() && order[p] == item;
            if p < k {
                // then `item` stands twice in `other`
                assert(other[p] == item);
                assert(ranks_before(keys, other[p], other[k]));
            } else {
                assert(p > k);
                assert(ranks_before(keys, order[k], order[p]));
            }
        } else {
            assert(ranks_before(keys, order[k], item));
        }
    }
}

fn key_before(keys: &Vec<Option<i128>>, a: usize, b: usize) -> (r: bool)
    requires
        a < keys@.len(),
        b < keys@.len(),
    ensures
        r == ranks_before(key_views(keys@), a as int, b as int),
{
    match (&keys[a], &keys[b]) {
        (Some(x), Some(y)) => *x > *y || (*x == *y && a < b),
        (Some(_), None) => true,
        (None, Some(_)) => false,
        (None, None) => a < b,
    }
}

/// The ranking of the items with the given keys, cut to `limit`: the places
/// of the items in the input, the best first.
pub fn rank_keys(keys: &Vec<Option<i128>>, limit: usize) -> (order: Vec<usize>)
    ensures
        is_ranking(key_views(keys@), limit as nat, place_views(order@)),
{
    let ghost kv = key_views(keys@);
    let mut order: Vec<usize> = Vec::new();
    let mut i: usize = 0;
    while i < keys.len()
        invariant
            i <= keys.len(),
            kv == key_views(keys@),
            order@.len() == i,
            forall|k: int| 0 <= k < i ==> (#[trigger] order@[k]) < i,
            forall|k1: int, k2: int|
                0 <= k1 < k2 < i ==> ranks_before(
                    kv,
                    (#[trigger] order@[k1]) as int,
                    (#[trigger] order@[k2]) as int,
                ),
            forall|j: int| 0 <= j < i ==> place_views(order@).contains(j),
        decreases keys.len() - i,
    {
        let mut p: usize = 0;
        while p < order.len() && !key_before(keys, i, order[p])
            invariant
                p <= order@.len(),
                i < keys.len(),
                kv == key_views(keys@),
                order@.len() == i,
                forall|k: int| 0 <= k < i ==> (#[trigger] order@[k]) < i,
                forall|q: int| 0 <= q < p ==> ranks_before(kv, (#[trigger] order@[q]) as int, i as int),
            decreases order@.len() - p,
        {
            p += 1;
        }
        let ghost before = order@;
        order.insert(p, i);
        proof {
            let after = order@;
            assert(after =~= before.insert(p as int, i));
            assert forall|k: int| 0 <= k < i + 1 implies (#[trigger] after[k]) < i + 1 by {
                if k < p {
                    assert(after[k] == before[k]);
                } else if k > p {
                    assert(after[k] == before[k - 1]);
                }
            }
            assert forall|k1: int, k2: int| 0 <= k1 < k2 < i + 1 implies ranks_before(
                kv,
                (#[trigger] after[k1]) as int,
                (#[trigger] after[k2]) as int,
            ) by {
                if k2 < p {
                    assert(after[k1] == before[k1] && after[k2] == before[k2]);
                } else if k2 == p {
                    assert(after[k1] == before[k1]);
                } else if k1 < p {
                    assert(after[k1] == before[k1] && after[k2] == before[k2 - 1]);
                } else if k1 == p {
                    assert(after[k2] == before[k2 - 1]);
                    assert(ranks_before(kv, i as int, before[p as int] as int));
                    if k2 - 1 > p {
                        assert(ranks_before(kv, before[p as int] as int, before[k2 - 1] as int));
                    }
                } else {
                    assert(after[k1] == before[k1 - 1] && after[k2] == before[k2 - 1]);
                }
            }
            assert forall|j: int| 0 <= j < i + 1 implies place_views(after).contains(j) by {
                if j == i {
                    assert(place_views(after)[p as int] == j);
                } else {
                    assert(place_views(before).contains(j));
                    let k = choose|k: int| 0 <= k < before.len() && place_views(before)[k] == j;
                    if k < p {
                        assert(place_views(after)[k] == j);
                    } else {
                        assert(place_views(after)[k + 1] == j);
                    }
                }
            }
        }
        i += 1;
    }
    let ghost full = order@;
    order.truncate(limit);
    proof {
        let cut = place_views(order@);
        let n = cut.len() as int;
        assert forall|k: int| 0 <= k < n implies cut[k] == full[k] by {}
        assert forall|k: int| 0 <= k < cut.len() implies 0 <= #[trigger] cut[k] < kv.len() by {
            assert(cut[k] == full[k]);
        }
        assert forall|k1: int, k2: int| 0 <= k1 < k2 < cut.len() implies ranks_before(
            kv,
            #[trigger] cut[k1],
            #[trigger] cut[k2],
        ) by {
            assert(cut[k1] == full[k1] && cut[k2] == full[k2]);
        }
        assert forall|j: int, k: int|
            0 <= j < kv.len() && !cut.contains(j) && 0 <= k < cut.len() implies #[trigger] ranks_before(
            kv,
            cut[k],
            j,
        ) by {
            assert(place_views(full).contains(j));
            let at = choose|at: int| 0 <= at < full.len() && place_views(full)[at] == j;
            if at < n {
                assert(cut[at] == j);
                assert(cut.contains(j));
            }
            assert(cut[k] == full[k]);
            assert(ranks_before(kv, full[k] as int, full[at] as int));
        }
    }
    order
}

/// The key by which an outcome is ranked: its score, nothing for a failure.
pub open spec fn spec_rank_key(outcome: Result<Scores, EsrError>, sort_positive: bool) -> Option<
    int,
> {
    match outcome {
        Ok(scores) => Some(scores.spec_sort_score(sort_positive)),
        Err(_) => None,
    }
}

/// The keys by which the outcomes of a batch are ranked, one for one.
pub open spec fn spec_rank_keys(
    results: Seq<(String, Result<Scores, EsrError>)>,
    sort_positive: bool,
) -> Seq<Option<int>> {
    Seq::new(results.len(), |i: int| spec_rank_key(results[i].1, sort_positive))
}

impl Scores {
    /// Ranks what a batch gave: the places in `results` of the `limit` best
    /// outcomes, the best first. A package is ranked by its positive score
    /// where `sort_positive` is set, else by its positive and negative score
    /// together; a failure comes after every score; where two are level, the
    /// one that came first in `results` stays first. The ranking is cut only
    /// after it is complete.
    pub fn search_results(
        results: &Vec<(String, Result<Scores, EsrError>)>,
        sort_positive: bool,
        limit: usize,
    ) -> (order: Vec<usize>)
        ensures
            is_ranking(spec_rank_keys(results@, sort_positive), limit as nat, place_views(order@)),
    {
        let mut keys: Vec<Option<i128>> = Vec::new();
        let mut i: usize = 0;
        while i < results.len()
            invariant
                i <= results.len(),
                keys@.len() == i,
                forall|k: int|
                    0 <= k < i ==> (#[trigger] key_views(keys@)[k]) == spec_rank_key(
                        results@[k].1,
                        sort_positive,
                    ),
            decreases results.len() - i,
        {
            let ghost held = key_views(keys@);
            let key = match &results[i].1 {
                Ok(scores) => Some(scores.sort_score(sort_positive)),
                Err(_) => None,
            };
            keys.push(key);
            assert forall|k: int| 0 <= k < i + 1 implies (#[trigger] key_views(keys@)[k])
                == spec_rank_key(results@[k].1, sort_positive) by {
                if k < i {
                    assert(key_views(keys@)[k] == held[k]);
                }
            }
            i += 1;
        }
        assert(key_views(keys@) =~= spec_rank_keys(results@, sort_positive));
        rank_keys(&keys, limit)
    }
}

// ---------------------------------------------------------------------------
// A batch
// ---------------------------------------------------------------------------

/// How many of the slots hold an outcome.
pub open spec fn spec_settled<T>(slots: Seq<Option<Result<T, EsrError>>>) -> nat
    decreases slots.len(),
{
    if slots.len() == 0 {
        0
    } else {
        spec_settled(slots.drop_last()) + if slots.last() is Some {
            1nat
        } else {
            0nat
        }
    }
}

/// Slots that are empty from `from` on hold `from` outcomes at most.
pub proof fn lemma_settled_bound<T>(slots: Seq<Option<Result<T, EsrError>>>, from: int)
    requires
        0 <= from <= slots.len(),
        forall|k: int| from <= k < slots.len() ==> slots[k] is None,
    ensures
        spec_settled(slots) <= from,
    decreases slots.len(),
{
    if slots.len() > 0 {
        let front = slots.drop_last();
        if from == slots.len() {
            lemma_settled_bound(front, from - 1);
        } else {
            lemma_settled_bound(front, from);
        }
    }
}

/// Filling an empty slot adds one outcome.
pub proof fn lemma_settled_update<T>(
    slots: Seq<Option<Result<T, EsrError>>>,
    index: int,
    outcome: Result<T, EsrError>,
)
    requires
        0 <= index < slots.len(),
        slots[index] is None,
    ensures
        spec_settled(slots.update(index, Some(outcome))) == spec_settled(slots) + 1,
    decreases slots.len(),
{
    let filled = slots.update(index, Some(outcome));
    if index == slots.len() - 1 {
        assert(filled.drop_last() =~= slots.drop_last());
    } else {
        assert(filled.drop_last() =~= slots.drop_last().update(index, Some(outcome)));
        lemma_settled_update(slots.drop_last(), index, outcome);
    }
}

/// The outcome that stands for a task that never reported one.
pub open spec fn is_unreported<T>(outcome: Result<T, EsrError>) -> bool {
    outcome is Err && outcome->Err_0 is TaskJoin && outcome->Err_0->TaskJoin_0@
        == "the task did not report"@
}

/// The bookkeeping of a batch: one task for each id, of which no more than
/// `limit` run at a time. Tasks are started in the order of the ids; they may
/// end in any order.
pub struct Batch<T> {
    slots: Vec<(String, Option<Result<T, EsrError>>)>,
    limit: usize,
    started: usize,
    in_flight: usize,
}

impl<T> Batch<T> {
    /// The ids of the batch, in the order in which they were given.
    pub closed spec fn spec_ids(&self) -> Seq<Seq<char>> {
        Seq::new(self.slots@.len(), |i: int| self.slots@[i].0@)
    }

    /// What each task has reported so far.
    pub closed spec fn spec_outcomes(&self) -> Seq<Option<Result<T, EsrError>>> {
        Seq::new(self.slots@.len(), |i: int| self.slots@[i].1)
    }

    /// The most tasks that may run at a time.
    pub closed spec fn spec_limit(&self) -> nat {
        self.limit as nat
    }

    /// How many tasks were started: the first so many ids.
    pub closed spec fn spec_started(&self) -> nat {
        self.started as nat
    }

    /// How many tasks run now.
    pub closed spec fn spec_in_flight(&self) -> nat {
        self.in_flight as nat
    }

    /// What holds of every batch: what runs is what was started and has not
    /// reported, only started tasks have reported, and no more than the limit
    /// run.
    pub closed spec fn wf(&self) -> bool {
        &&& self.started <= self.slots@.len()
        &&& self.in_flight <= self.limit
        &&& self.in_flight + spec_settled(self.spec_outcomes()) == self.started
        &&& forall|k: int| self.started <= k < self.slots@.len() ==> self.slots@[k].1 is None
    }

    /// In a batch no more tasks run than the limit allows, and every running
    /// task is one that was started and has not reported.
    pub proof fn lemma_bounded(&self)
        requires
            self.wf(),
        ensures
            self.spec_in_flight() <= self.spec_limit(),
            self.spec_started() <= self.spec_ids().len(),
            self.spec_outcomes().len() == self.spec_ids().len(),
            self.spec_in_flight() + spec_settled(self.spec_outcomes()) == self.spec_started(),
            forall|k: int|
                self.spec_started() <= k < self.spec_ids().len() ==> self.spec_outcomes()[k] is None,
    {
    }

    /// A batch for the given ids, of which nothing was started yet.
    pub fn new(ids: Vec<String>, concurrency_limit: usize) -> (batch: Self)
        ensures
            batch.wf(),
            batch.spec_ids() == Seq::new(ids@.len(), |i: int| ids@[i]@),
            batch.spec_outcomes() == Seq::new(
                ids@.len(),
                |i: int| None::<Result<T, EsrError>>,
            ),
            batch.spec_limit() == concurrency_limit,
            batch.spec_started() == 0,
            batch.spec_in_flight() == 0,
    {
        let mut slots: Vec<(String, Option<Result<T, EsrError>>)> = Vec::new();
        let ghost given = ids@;
        for id in it: ids
            invariant
                it.seq() == given,
                slots@.len() == it.index(),
                forall|k: int|
                    0 <= k < it.index() ==> (#[trigger] slots@[k]).0@ == given[k]@ && slots@[k].1
                        is None,
        {
            slots.push((id, None));
        }
        let batch = Batch { slots, limit: concurrency_limit, started: 0, in_flight: 0 };
        proof {
            lemma_settled_bound(batch.spec_outcomes(), 0);
            assert(batch.spec_ids() =~= Seq::new(given.len(), |i: int| given[i]@));
            assert(batch.spec_outcomes() =~= Seq::new(
                given.len(),
                |i: int| None::<Result<T, EsrError>>,
            ));
        }
        batch
    }

    /// The number of ids.
    pub fn len(&self) -> (n: usize)
        ensures
            n == self.spec_ids().len(),
    {
        self.slots.len()
    }

    /// The id at a place of the batch.
    pub fn get_id(&self, index: usize) -> (id: Option<&str>)
        ensures
            match id {
                Some(id) => index < self.spec_ids().len() && id@ == self.spec_ids()[index as int],
                None => index >= self.spec_ids().len(),
            },
    {
        if index < self.slots.len() {
            Some(self.slots[index].0.as_str())
        } else {
            None
        }
    }

    /// How many tasks run now.
    pub fn in_flight(&self) -> (n: usize)
        ensures
            n == self.spec_in_flight(),
    {
        self.in_flight
    }

    /// Whether every task was started and has reported.
    pub fn is_finished(&self) -> (done: bool)
        requires
            self.wf(),
        ensures
            done == (self.spec_started() == self.spec_ids().len() && self.spec_in_flight() == 0),
            done ==> forall|k: int|
                0 <= k < self.spec_ids().len() ==> self.spec_outcomes()[k] is Some,
    {
        let done = self.started == self.slots.len() && self.in_flight == 0;
        proof {
            if done {
                lemma_all_settled(self.spec_outcomes());
            }
        }
        done
    }

    /// The next task to start: the place of the first id that was not started
    /// yet, unless the limit is reached or nothing is left. The task then
    /// counts as running.
    pub fn next_start(&mut self) -> (next: Option<usize>)
        requires
            old(self).wf(),
        ensures
            final(self).wf(),
            final(self).spec_ids() == old(self).spec_ids(),
            final(self).spec_outcomes() == old(self).spec_outcomes(),
            final(self).spec_limit() == old(self).spec_limit(),
            final(self).spec_in_flight() <= final(self).spec_limit(),
            match next {
                Some(index) => {
                    &&& index == old(self).spec_started()
                    &&& index < old(self).spec_ids().len()
                    &&& old(self).spec_in_flight() < old(self).spec_limit()
                    &&& final(self).spec_started() == old(self).spec_started() + 1
                    &&& final(self).spec_in_flight() == old(self).spec_in_flight() + 1
                },
                None => {
                    &&& (old(self).spec_started() == old(self).spec_ids().len() || old(self).spec_in_flight() == old(self).spec_limit())
                    &&& final(self).spec_started() == old(self).spec_started()
                    &&& final(self).spec_in_flight() == old(self).spec_in_flight()
                },
            },
    {
        if self.started < self.slots.len() && self.in_flight < self.limit {
            let index = self.started;
            self.started = self.started + 1;
            self.in_flight = self.in_flight + 1;
            Some(index)
        } else {
            None
        }
    }

    /// Takes down what the task at `index` reported. Only a task that runs
    /// can report: the outcome of any other is dropped, and the answer is
    /// `false`.
    pub fn complete(&mut self, index: usize, outcome: Result<T, EsrError>) -> (accepted: bool)
        requires
            old(self).wf(),
        ensures
            final(self).wf(),
            final(self).spec_ids() == old(self).spec_ids(),
            final(self).spec_limit() == old(self).spec_limit(),
            final(self).spec_started() == old(self).spec_started(),
            accepted == (index < old(self).spec_started() && old(self).spec_outcomes()[index as int]
                is None),
            accepted ==> final(self).spec_outcomes() == old(self).spec_outcomes().update(
                index as int,
                Some(outcome),
            ) && final(self).spec_in_flight() + 1 == old(self).spec_in_flight(),
            !accepted ==> final(self).spec_outcomes() == old(self).spec_outcomes() && final(self).spec_in_flight() == old(self).spec_in_flight(),
    {
        if index >= self.started {
            return false;
        }
        if self.slots[index].1.is_some() {
            return false;
        }
        let ghost ids = self.spec_ids();
        let ghost outcomes = self.spec_outcomes();
        proof {
            lemma_settled_update(outcomes, index as int, outcome);
            lemma_settled_bound(
                outcomes.update(index as int, Some(outcome)),
                self.started as int,
            );
        }
        let id = self.slots[index].0.clone();
        self.slots[index] = (id, Some(outcome));
        self.in_flight = self.in_flight - 1;
        proof {
            assert(self.spec_ids() =~= ids);
            assert(self.spec_outcomes() =~= outcomes.update(index as int, Some(outcome)));
        }
        true
    }

    /// Ends the batch: one outcome for each id, in the order of the ids,
    /// whatever the order in which the tasks ended. A task that never
    /// reported, because it was not started or was cut off, has a `TaskJoin`
    /// error for its outcome.
    pub fn finish(self) -> (results: Vec<(String, Result<T, EsrError>)>)
        ensures
            results@.len() == self.spec_ids().len(),
            forall|i: int|
                0 <= i < results@.len() ==> (#[trigger] results@[i]).0@ == self.spec_ids()[i],
            forall|i: int|
                0 <= i < results@.len() ==> match self.spec_outcomes()[i] {
                    Some(outcome) => (#[trigger] results@[i]).1 == outcome,
                    None => is_unreported(results@[i].1),
                },
    {
        let ghost ids = self.spec_ids();
        let ghost outcomes = self.spec_outcomes();
        let ghost slots = self.slots@;
        let mut results: Vec<(String, Result<T, EsrError>)> = Vec::new();
        for slot in it: self.slots
            invariant
                it.seq() == slots,
                ids == Seq::new(slots.len(), |i: int| slots[i].0@),
                outcomes == Seq::new(slots.len(), |i: int| slots[i].1),
                results@.len() == it.index(),
                forall|i: int|
                    0 <= i < it.index() ==> (#[trigger] results@[i]).0@ == ids[i] && match outcomes[i] {
                        Some(outcome) => results@[i].1 == outcome,
                        None => is_unreported(results@[i].1),
                    },
        {
            let (id, reported) = slot;
            let outcome = match reported {
                Some(outcome) => outcome,
                None => Err(EsrError::TaskJoin(String::from_str("the task did not report"))),
            };
            results.push((id, outcome));
        }
        results
    }
}

/// Where nothing runs and all was started, every slot holds an outcome.
pub proof fn lemma_all_settled<T>(slots: Seq<Option<Result<T, EsrError>>>)
    requires
        spec_settled(slots) == slots.len(),
    ensures
        forall|k: int| 0 <= k < slots.len() ==> slots[k] is Some,
    decreases slots.len(),
{
    if slots.len() > 0 {
        let front = slots.drop_last();
        lemma_settled_bound(front, front.len() as int);
        lemma_all_settled(front);
        assert forall|k: int| 0 <= k < slots.len() implies slots[k] is Some by {
            if k < slots.len() - 1 {
                assert(front[k] == slots[k]);
            }
        }
    }
}

} // verus!
