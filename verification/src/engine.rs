//! The dispatch engine: startup recovery, capacity-bounded dispatch, and the
//! per-URL lifecycle transitions a worker drives.
//!
//! The surrounding process owns the clocks, channels and network; every
//! decision about frontier membership is taken here.

use vstd::prelude::*;
use crate::{Article, CrawlerResult};
use crate::frontier::{Frontier, inserted, ids_of};

verus! {

/// The in-flight ceiling: how many URLs may be Running at once.
pub const MAX_IN_PROGRESS: u32 = 20;

/// Queued membership after a batch of discovered links is offered to the
/// frontier, first to last: a link not yet Visited, not Running and not
/// already Queued is appended; every other link is left alone.
pub open spec fn enqueue_new(
    q: Seq<Seq<char>>,
    visited: Seq<Seq<char>>,
    running: Seq<Seq<char>>,
    links: Seq<Seq<char>>,
) -> Seq<Seq<char>>
    decreases links.len(),
{
    if links.len() == 0 {
        q
    } else {
        let q1 = if !visited.contains(links.first()) && !running.contains(links.first())
            && !q.contains(links.first()) {
            q.push(links.first())
        } else {
            q
        };
        enqueue_new(q1, visited, running, links.drop_first())
    }
}

/// Discovery never re-enqueues an active or finished URL: one that is
/// already Visited or currently Running, and not Queued, stays out of the
/// queue no matter which links a page yields.
pub proof fn lemma_discovery_skips_active(
    q: Seq<Seq<char>>,
    visited: Seq<Seq<char>>,
    running: Seq<Seq<char>>,
    links: Seq<Seq<char>>,
    u: Seq<char>,
)
    requires
        !q.contains(u),
        visited.contains(u) || running.contains(u),
    ensures
        !enqueue_new(q, visited, running, links).contains(u),
    decreases links.len(),
{
    if links.len() > 0 {
        let l = links.first();
        let q1 = if !visited.contains(l) && !running.contains(l) && !q.contains(l) {
            q.push(l)
        } else {
            q
        };
        assert(!q1.contains(u)) by {
            if q1 != q && q1.contains(u) {
                // The pushed link cannot be `u`: `u` is Visited or Running.
                let k = choose|k: int| 0 <= k < q1.len() && q1[k] == u;
                if k < q.len() {
                    assert(q[k] == u);
                } else {
                    assert(l == u);
                }
            }
        }
        lemma_discovery_skips_active(q1, visited, running, links.drop_first(), u);
    }
}

impl<A> Frontier<A> {
    /// The URLs one dispatch tick selects: the oldest queued URLs, up to the
    /// spare capacity under the in-flight ceiling.
    pub open spec fn spec_dispatch_batch(&self, max_in_progress: u32) -> Seq<Seq<char>> {
        if self.running_ids().len() < max_in_progress {
            let cap = max_in_progress - self.running_ids().len();
            self.queued_ids().take(
                if cap <= self.queued_ids().len() {
                    cap as int
                } else {
                    self.queued_ids().len() as int
                },
            )
        } else {
            Seq::empty()
        }
    }

    /// One dispatch tick: computes the spare capacity below the ceiling and
    /// selects that many of the oldest queued URLs, oldest first. With no
    /// spare capacity nothing is selected.
    pub fn dispatch_batch(&self, max_in_progress: u32) -> (r: Vec<String>)
        ensures
            ids_of(r) == self.spec_dispatch_batch(max_in_progress),
    {
        let running = self.running_count();
        if running < max_in_progress as usize {
            let cap: u32 = max_in_progress - running as u32;
            self.queued_get_n(cap)
        } else {
            let r: Vec<String> = Vec::new();
            proof {
                assert(ids_of(r) =~= Seq::<Seq<char>>::empty());
            }
            r
        }
    }

    /// Backpressure: a dispatch tick never selects more URLs than the spare
    /// capacity below the ceiling, so even if every selected URL goes into
    /// Running at once, Running stays within the ceiling.
    pub proof fn lemma_backpressure(&self, max_in_progress: u32)
        requires
            self.running_ids().len() <= max_in_progress,
        ensures
            self.spec_dispatch_batch(max_in_progress).len() + self.running_ids().len()
                <= max_in_progress,
    {
    }

    /// A worker picked `url` off the work channel. A URL that is already
    /// Running or already Visited was dispatched twice: the stale queue
    /// entry is dropped and no work starts. Any other URL is accepted
    /// untouched.
    pub fn claim(&mut self, url: &str) -> (accepted: bool)
        requires
            old(self).wf(),
        ensures
            final(self).wf(),
            accepted == (!old(self).running_ids().contains(url@)
                && !old(self).visited_ids().contains(url@)),
            accepted ==> *final(self) == *old(self),
            !accepted ==> {
                &&& final(self).queued_ids() == old(self).queued_ids().remove_value(url@)
                &&& !final(self).queued_ids().contains(url@)
                &&& final(self).running == old(self).running
                &&& final(self).visited == old(self).visited
                &&& final(self).warned == old(self).warned
                &&& final(self).results == old(self).results
            },
    {
        if self.running_is_exists(url) {
            self.queued_delete(url);
            false
        } else if self.visited_is_exists(url) {
            self.queued_delete(url);
            false
        } else {
            true
        }
    }

    /// A worker takes ownership of `url` before any network work: it enters
    /// Running and leaves Queued.
    pub fn begin_processing(&mut self, url: &str)
        requires
            old(self).wf(),
        ensures
            final(self).wf(),
            final(self).running_ids() == inserted(old(self).running_ids(), url@),
            final(self).running_ids().contains(url@),
            final(self).queued_ids() == old(self).queued_ids().remove_value(url@),
            !final(self).queued_ids().contains(url@),
            final(self).visited == old(self).visited,
            final(self).warned == old(self).warned,
            final(self).results == old(self).results,
    {
        self.running_insert(url);
        self.queued_delete(url);
    }

    /// A fetch failed: the URL is returned to Queued for a later attempt
    /// instead of waiting in Running for a restart, and the worker lets go
    /// of it.
    pub fn requeue_after_failure(&mut self, url: &str)
        requires
            old(self).wf(),
        ensures
            final(self).wf(),
            final(self).queued_ids() == inserted(old(self).queued_ids(), url@),
            final(self).queued_ids().contains(url@),
            final(self).running_ids() == old(self).running_ids().remove_value(url@),
            !final(self).running_ids().contains(url@),
            final(self).visited == old(self).visited,
            final(self).warned == old(self).warned,
            final(self).results == old(self).results,
    {
        self.queued_insert(url);
        self.running_delete(url);
    }

    /// Offers every discovered link to the frontier, in order: a link not
    /// yet Visited, not Running and not already Queued is enqueued.
    fn enqueue_discovered(&mut self, links: &Vec<String>)
        requires
            old(self).wf(),
        ensures
            final(self).wf(),
            final(self).queued_ids() == enqueue_new(
                old(self).queued_ids(),
                old(self).visited_ids(),
                old(self).running_ids(),
                links.deep_view(),
            ),
            final(self).running == old(self).running,
            final(self).visited == old(self).visited,
            final(self).warned == old(self).warned,
            final(self).results == old(self).results,
    {
        let ghost ldv = links.deep_view();
        let ghost oq = old(self).queued_ids();
        let mut i: usize = 0;
        proof {
            assert(ldv.skip(0) =~= ldv);
        }
        while i < links.len()
            invariant
                0 <= i <= links@.len(),
                ldv == links.deep_view(),
                self.wf(),
                self.running == old(self).running,
                self.visited == old(self).visited,
                self.warned == old(self).warned,
                self.results == old(self).results,
                enqueue_new(oq, old(self).visited_ids(), old(self).running_ids(), ldv)
                    == enqueue_new(
                    self.queued_ids(),
                    old(self).visited_ids(),
                    old(self).running_ids(),
                    ldv.skip(i as int),
                ),
                oq == old(self).queued_ids(),
            decreases links@.len() - i,
        {
            proof {
                assert(ldv[i as int] == links@[i as int]@);
                assert(ldv.skip(i as int).first() == ldv[i as int]);
                assert(ldv.skip(i as int).drop_first() =~= ldv.skip(i + 1));
            }
            let link = links[i].as_str();
            if !self.visited_is_exists(link) {
                if !self.running_is_exists(link) {
                    if !self.queued_is_exists(link) {
                        self.queued_insert(link);
                    }
                }
            }
            i = i + 1;
        }
        proof {
            assert(ldv.skip(links@.len() as int) =~= Seq::<Seq<char>>::empty());
        }
    }

    /// Seeds the queue from the initial list, used only when the persisted
    /// queue came up empty.
    pub fn seed_if_empty(&mut self, seeds: &Vec<String>)
        requires
            old(self).wf(),
        ensures
            final(self).wf(),
            old(self).queued_ids().len() > 0 ==> *final(self) == *old(self),
            old(self).queued_ids().len() == 0 ==> {
                &&& final(self).queued_ids() == enqueue_new(
                    old(self).queued_ids(),
                    Seq::empty(),
                    Seq::empty(),
                    seeds.deep_view(),
                )
                &&& final(self).running == old(self).running
                &&& final(self).visited == old(self).visited
                &&& final(self).warned == old(self).warned
                &&& final(self).results == old(self).results
            },
    {
        if self.queued_count() > 0 {
            return ;
        }
        let ghost sdv = seeds.deep_view();
        let ghost oq = old(self).queued_ids();
        let mut i: usize = 0;
        proof {
            assert(sdv.skip(0) =~= sdv);
        }
        while i < seeds.len()
            invariant
                0 <= i <= seeds@.len(),
                sdv == seeds.deep_view(),
                self.wf(),
                self.running == old(self).running,
                self.visited == old(self).visited,
                self.warned == old(self).warned,
                self.results == old(self).results,
                enqueue_new(oq, Seq::empty(), Seq::empty(), sdv) == enqueue_new(
                    self.queued_ids(),
                    Seq::empty(),
                    Seq::empty(),
                    sdv.skip(i as int),
                ),
                oq == old(self).queued_ids(),
            decreases seeds@.len() - i,
        {
            proof {
                assert(sdv[i as int] == seeds@[i as int]@);
                assert(sdv.skip(i as int).first() == sdv[i as int]);
                assert(sdv.skip(i as int).drop_first() =~= sdv.skip(i + 1));
                assert(!Seq::<Seq<char>>::empty().contains(sdv[i as int]));
            }
            self.queued_insert(seeds[i].as_str());
            i = i + 1;
        }
        proof {
            assert(sdv.skip(seeds@.len() as int) =~= Seq::<Seq<char>>::empty());
        }
    }

    /// Startup: recover the work a previous run left in Running, then seed
    /// the queue from the initial list when it came up empty.
    pub fn startup_recover(&mut self, seeds: &Vec<String>)
        requires
            old(self).wf(),
        ensures
            final(self).wf(),
            final(self).running_ids().len() == 0,
            ({
                let merged = old(self).queued_ids() + old(self).running_ids().filter(
                    |u: Seq<char>| !old(self).queued_ids().contains(u),
                );
                final(self).queued_ids() == if merged.len() == 0 {
                    enqueue_new(merged, Seq::empty(), Seq::empty(), seeds.deep_view())
                } else {
                    merged
                }
            }),
            final(self).visited == old(self).visited,
            final(self).warned == old(self).warned,
            final(self).results == old(self).results,
    {
        self.merge_queue_and_running();
        self.seed_if_empty(seeds);
    }
}

impl<A: Article> Frontier<A> {
    /// Applies the terminal transition for one fetched and classified URL,
    /// then releases it from Running:
    /// a link-only page marks the URL Visited; an extracted document with
    /// content is archived and the URL marked Visited; an extracted document
    /// with no paragraphs marks the URL Warned, and nothing is archived. In
    /// the Visited cases every discovered link is offered to the queue.
    pub fn finish_processing(&mut self, url: &str, result: CrawlerResult<A>)
        requires
            old(self).wf(),
        ensures
            final(self).wf(),
            final(self).running_ids() == old(self).running_ids().remove_value(url@),
            !final(self).running_ids().contains(url@),
            // A URL that was out of the queue when its page was processed is
            // still out afterwards, also when the page links to it: it is
            // Visited or Running at discovery time.
            !old(self).queued_ids().contains(url@) ==> !final(self).queued_ids().contains(url@),
            (match result {
                CrawlerResult::Links(links) => {
                    &&& final(self).visited_ids() == inserted(old(self).visited_ids(), url@)
                    &&& final(self).visited_ids().contains(url@)
                    &&& final(self).queued_ids() == enqueue_new(
                        old(self).queued_ids(),
                        inserted(old(self).visited_ids(), url@),
                        old(self).running_ids(),
                        links.deep_view(),
                    )
                    &&& final(self).warned == old(self).warned
                    &&& (!old(self).warned_ids().contains(url@) ==> !final(self).warned_ids().contains(url@))
                    &&& final(self).results == old(self).results
                },
                CrawlerResult::DocumentAndLinks(doc, links) => {
                    if doc.paragraphs_view().len() == 0 {
                        &&& final(self).warned_ids() == inserted(old(self).warned_ids(), url@)
                        &&& final(self).warned_ids().contains(url@)
                        &&& final(self).visited == old(self).visited
                        &&& (!old(self).visited_ids().contains(url@) ==> !final(self).visited_ids().contains(url@))
                        &&& final(self).results == old(self).results
                        &&& final(self).queued_ids() == old(self).queued_ids()
                    } else {
                        &&& final(self).result_ids() == inserted(old(self).result_ids(), url@)
                        &&& (!old(self).result_ids().contains(url@) ==> {
                            &&& final(self).results@.len() == old(self).results@.len() + 1
                            &&& final(self).results@.drop_last() == old(self).results@
                            &&& final(self).results@.last().0@ == url@
                            &&& final(self).results@.last().1 == doc
                        })
                        &&& (old(self).result_ids().contains(url@) ==> final(self).results
                            == old(self).results)
                        &&& final(self).visited_ids() == inserted(old(self).visited_ids(), url@)
                        &&& final(self).visited_ids().contains(url@)
                        &&& final(self).queued_ids() == enqueue_new(
                            old(self).queued_ids(),
                            inserted(old(self).visited_ids(), url@),
                            old(self).running_ids(),
                            links.deep_view(),
                        )
                        &&& final(self).warned == old(self).warned
                        &&& (!old(self).warned_ids().contains(url@) ==> !final(self).warned_ids().contains(url@))
                    }
                },
            }),
    {
        match result {
            CrawlerResult::Links(links) => {
                self.visited_insert(url);
                let ghost mid = *self;
                self.enqueue_discovered(&links);
                proof {
                    if !old(self).queued_ids().contains(url@) {
                        lemma_discovery_skips_active(
                            mid.queued_ids(),
                            mid.visited_ids(),
                            mid.running_ids(),
                            links.deep_view(),
                            url@,
                        );
                    }
                }
            },
            CrawlerResult::DocumentAndLinks(doc, links) => {
                let paragraphs = doc.get_paragraphs();
                let paragraphs_empty = paragraphs.len() == 0;
                proof {
                    assert(paragraphs.deep_view().len() == paragraphs@.len());
                }
                if paragraphs_empty {
                    self.warned_insert(url);
                } else {
                    self.results_insert(url, doc);
                    self.visited_insert(url);
                    let ghost mid = *self;
                    self.enqueue_discovered(&links);
                    proof {
                        if !old(self).queued_ids().contains(url@) {
                            lemma_discovery_skips_active(
                                mid.queued_ids(),
                                mid.visited_ids(),
                                mid.running_ids(),
                                links.deep_view(),
                                url@,
                            );
                        }
                    }
                }
            },
        }
        self.running_delete(url);
    }
}

} // verus!
