//! The pipeline: repositories are polled stage by stage, new commits are
//! judged, and grades are recorded on a scoreboard.
use vstd::prelude::*;
use vstd::string::*;

pub mod error;
pub mod judge;
pub mod scoreboard;
pub mod stage;

use crate::pipeline::judge::{head_commit, repo_name, GitTarget};
use crate::pipeline::scoreboard::Scoreboard;
use crate::pipeline::stage::Stage;

verus! {

/// Every `(x, y)` with `x` from `xs` and `y` from `ys`, by `x` first and then by `y`.
pub open spec fn pairs<A, B>(xs: Seq<A>, ys: Seq<B>) -> Seq<(A, B)>
    decreases xs.len(),
{
    if xs.len() == 0 {
        Seq::empty()
    } else {
        pairs(xs.drop_last(), ys) + ys.map_values(|y: B| (xs.last(), y))
    }
}

/// The text of each repository URL.
pub open spec fn url_texts(repos: Seq<String>) -> Seq<Seq<char>> {
    repos.map_values(|r: String| r@)
}

/// A unit of work: a target to poll or judge for a stage.
pub struct Work<'a> {
    pub target: GitTarget,
    pub stage: &'a Stage,
}

/// Whether `w` is the order to poll the head of repository `p.0` for stage `p.1`.
pub open spec fn orders_poll(w: Work, p: (Seq<char>, Stage)) -> bool {
    &&& w.target.url@ == p.0
    &&& w.target.commit@ == head_commit()
    &&& *w.stage == p.1
}

impl<'a> Work<'a> {
    pub fn new(target: GitTarget, stage: &'a Stage) -> (r: Self)
        ensures
            r.target == target,
            r.stage == stage,
    {
        Work { target, stage }
    }

    /// How the work is shown: `Work<<stage>,GitTarget(<name>::<commit>)>`.
    pub fn to_string(&self) -> (r: String)
        ensures
            r@ == "Work<"@ + self.stage.name@ + ","@ + ("GitTarget("@ + repo_name(self.target.url@)
                + "::"@ + self.target.commit@ + ")"@) + ">"@,
    {
        let mut s = "Work<".to_owned();
        s.append(self.stage.name.as_str());
        s.append(",");
        let t = self.target.to_string();
        s.append(t.as_str());
        s.append(">");
        s
    }
}

/// The whole judging pipeline, as configured.
pub struct Pipeline {
    pub name: String,
    pub poll_interval: u32,
    pub concurrency: usize,
    pub log_level: String,
    pub scoreboard: Scoreboard,
    pub stages: Vec<Stage>,
    pub repos: Vec<String>,
}

impl Pipeline {
    /// The poll orders of one polling round. Where the previous round's orders
    /// are still queued there are none; otherwise there is one order per
    /// repository and stage, repository by repository, each at the head.
    pub fn poll_all<'a>(&'a self, queue_empty: bool) -> (r: Vec<Work<'a>>)
        ensures
            !queue_empty ==> r@.len() == 0,
            queue_empty ==> r@.len() == pairs(url_texts(self.repos@), self.stages@).len(),
            queue_empty ==> forall|k: int|
                0 <= k < r@.len() ==> orders_poll(
                    #[trigger] r@[k],
                    pairs(url_texts(self.repos@), self.stages@)[k],
                ),
    {
        let mut works: Vec<Work<'a>> = Vec::new();
        if !queue_empty {
            return works;
        }
        let ghost xs = url_texts(self.repos@);
        let ghost ys = self.stages@;
        let mut i: usize = 0;
        assert(xs.take(0) =~= Seq::<Seq<char>>::empty());
        while i < self.repos.len()
            invariant
                i <= self.repos@.len(),
                xs == url_texts(self.repos@),
                ys == self.stages@,
                works@.len() == pairs(xs.take(i as int), ys).len(),
                forall|k: int|
                    0 <= k < works@.len() ==> orders_poll(
                        #[trigger] works@[k],
                        pairs(xs.take(i as int), ys)[k],
                    ),
            decreases self.repos@.len() - i,
        {
            let ghost done = pairs(xs.take(i as int), ys);
            let ghost row = ys.map_values(|y: Stage| (xs[i as int], y));
            let mut j: usize = 0;
            while j < self.stages.len()
                invariant
                    i < self.repos@.len(),
                    j <= self.stages@.len(),
                    xs == url_texts(self.repos@),
                    ys == self.stages@,
                    row == ys.map_values(|y: Stage| (xs[i as int], y)),
                    works@.len() == done.len() + j,
                    forall|k: int|
                        0 <= k < done.len() ==> orders_poll(#[trigger] works@[k], done[k]),
                    forall|k: int|
                        done.len() <= k < works@.len() ==> orders_poll(
                            #[trigger] works@[k],
                            row[k - done.len()],
                        ),
                decreases self.stages@.len() - j,
            {
                let w = Work::new(GitTarget::repo(self.repos[i].clone()), &self.stages[j]);
                works.push(w);
                j = j + 1;
            }
            proof {
                assert(xs.take(i + 1).drop_last() =~= xs.take(i as int));
                assert(xs.take(i + 1).last() == xs[i as int]);
                assert(pairs(xs.take(i + 1), ys) == done + row);
            }
            i = i + 1;
        }
        assert(xs.take(self.repos@.len() as int) =~= xs);
        works
    }

    /// How many stop signals the pipeline's stop channel holds: one for the
    /// polling thread and one per worker. `None` where that count overflows.
    pub fn stop_signal_capacity(&self) -> (r: Option<usize>)
        ensures
            r is Some <==> self.concurrency + 1 <= usize::MAX,
            r matches Some(c) ==> c == self.concurrency + 1,
    {
        self.concurrency.checked_add(1)
    }
}

/// The poll orders of a round enumerate the repositories and stages as a grid:
/// the round has one order per repository and stage, and the order for
/// repository `i` and stage `j` stands at `i * (number of stages) + j`.
pub proof fn lemma_pairs_grid<A, B>(xs: Seq<A>, ys: Seq<B>, i: int, j: int)
    requires
        0 <= i < xs.len(),
        0 <= j < ys.len(),
    ensures
        pairs(xs, ys).len() == xs.len() * ys.len(),
        0 <= i * ys.len() + j < pairs(xs, ys).len(),
        pairs(xs, ys)[i * ys.len() + j] == (xs[i], ys[j]),
    decreases xs.len(),
{
    let n = xs.len() as int;
    let m = ys.len() as int;
    let t = xs.drop_last();
    lemma_pairs_len(xs, ys);
    lemma_pairs_len(t, ys);
    assert((n - 1) * m + m == n * m) by (nonlinear_arith);
    if i < n - 1 {
        lemma_pairs_grid(t, ys, i, j);
        assert(i * m + j < (n - 1) * m) by (nonlinear_arith)
            requires
                0 <= i < n - 1,
                0 <= j < m,
        ;
    } else {
        assert(i * m == (n - 1) * m);
    }
    assert(0 <= i * m) by (nonlinear_arith)
        requires
            0 <= i,
            0 <= m,
    ;
}

/// A round has one order per repository and stage.
pub proof fn lemma_pairs_len<A, B>(xs: Seq<A>, ys: Seq<B>)
    ensures
        pairs(xs, ys).len() == xs.len() * ys.len(),
    decreases xs.len(),
{
    if xs.len() > 0 {
        lemma_pairs_len(xs.drop_last(), ys);
        assert((xs.len() - 1) * ys.len() + ys.len() == xs.len() * ys.len()) by (nonlinear_arith);
    }
}

} // verus!
