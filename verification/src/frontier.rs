//! The frontier store: membership of every known URL in the four lifecycle
//! sets, plus the result archive.
//!
//! Each set keeps its members in enqueue order, so a sequence without
//! duplicates models a table keyed by the URL with a creation timestamp.
//! All inserts are insert-or-ignore: first writer wins, a duplicate insert
//! is a no-op, never an error.

use vstd::prelude::*;

verus! {

broadcast use vstd::seq_lib::group_seq_lib_default;

/// Membership of one URL list, in enqueue order.
pub open spec fn ids_of(v: Vec<String>) -> Seq<Seq<char>> {
    v.deep_view()
}

/// Whether `url` is a member of the list.
fn list_contains(v: &Vec<String>, url: &str) -> (r: bool)
    ensures
        r == ids_of(*v).contains(url@),
{
    let mut i: usize = 0;
    while i < v.len()
        invariant
            0 <= i <= v@.len(),
            forall|k: int| 0 <= k < i ==> ids_of(*v)[k] != url@,
        decreases v@.len() - i,
    {
        assert(ids_of(*v)[i as int] == v@[i as int]@);
        if crate::text::str_eq(v[i].as_str(), url) {
            return true;
        }
        i = i + 1;
    }
    false
}

/// Insert-or-ignore: appends `url` unless it is already a member.
fn list_insert(v: &mut Vec<String>, url: &str)
    requires
        ids_of(*old(v)).no_duplicates(),
    ensures
        ids_of(*final(v)) == if ids_of(*old(v)).contains(url@) {
            ids_of(*old(v))
        } else {
            ids_of(*old(v)).push(url@)
        },
        ids_of(*final(v)).no_duplicates(),
        ids_of(*final(v)).contains(url@),
{
    if !list_contains(v, url) {
        let ghost prev = ids_of(*v);
        v.push(String::from_str(url));
        proof {
            assert(ids_of(*v) =~= prev.push(url@));
            assert(ids_of(*v).last() == url@);
            assert(forall|i: int, j: int|
                0 <= i < ids_of(*v).len() && 0 <= j < ids_of(*v).len() && i != j
                    ==> ids_of(*v)[i] != ids_of(*v)[j]);
        }
    }
}

/// Removes `url` if present; a miss is a no-op.
fn list_delete(v: &mut Vec<String>, url: &str)
    requires
        ids_of(*old(v)).no_duplicates(),
    ensures
        ids_of(*final(v)) == ids_of(*old(v)).remove_value(url@),
        ids_of(*final(v)).no_duplicates(),
        !ids_of(*final(v)).contains(url@),
{
    let ghost orig = ids_of(*v);
    let mut i: usize = 0;
    while i < v.len()
        invariant
            0 <= i <= v@.len(),
            ids_of(*v) == orig,
            orig == ids_of(*old(v)),
            orig.no_duplicates(),
            forall|k: int| 0 <= k < i ==> orig[k] != url@,
        decreases v@.len() - i,
    {
        assert(ids_of(*v)[i as int] == v@[i as int]@);
        if crate::text::str_eq(v[i].as_str(), url) {
            proof {
                assert(orig[i as int] == url@);
                assert(orig.contains(url@));
            }
            v.remove(i);
            proof {
                orig.index_of_first_ensures(url@);
                match orig.index_of_first(url@) {
                    Some(idx) => {
                        assert(orig[idx] == url@);
                        assert(orig[i as int] == url@);
                        assert(idx == i as int);
                    },
                    None => {
                        assert(false);
                    },
                }
                assert(forall|k: int| 0 <= k < i ==> ids_of(*v)[k] == orig[k]);
                assert(forall|k: int| i <= k < ids_of(*v).len()
                    ==> ids_of(*v)[k] == orig[k + 1]);
                assert(ids_of(*v) =~= orig.remove(i as int));
                assert(forall|k: int| 0 <= k < ids_of(*v).len() ==> ids_of(*v)[k] != url@);
            }
            return ;
        }
        i = i + 1;
    }
    proof {
        orig.index_of_first_ensures(url@);
        assert(!orig.contains(url@));
    }
}

/// A fresh copy of the member list, in order.
fn list_members(v: &Vec<String>) -> (r: Vec<String>)
    ensures
        ids_of(r) == ids_of(*v),
{
    let mut r: Vec<String> = Vec::new();
    let mut i: usize = 0;
    while i < v.len()
        invariant
            0 <= i <= v@.len(),
            ids_of(r) == ids_of(*v).take(i as int),
        decreases v@.len() - i,
    {
        let ghost prev = ids_of(r);
        r.push(v[i].clone());
        proof {
            assert(ids_of(r) =~= prev.push(ids_of(*v)[i as int]));
            assert(ids_of(*v).take(i + 1) =~= ids_of(*v).take(i as int).push(
                ids_of(*v)[i as int],
            ));
        }
        i = i + 1;
    }
    proof {
        assert(ids_of(*v).take(v@.len() as int) =~= ids_of(*v));
    }
    r
}

/// What one insert-or-ignore leaves a set holding.
pub open spec fn inserted(ids: Seq<Seq<char>>, url: Seq<char>) -> Seq<Seq<char>> {
    if ids.contains(url) {
        ids
    } else {
        ids.push(url)
    }
}

/// Idempotent insert: inserting a URL into a set that already holds it
/// changes nothing, so inserting the same URL twice leaves exactly one
/// occurrence, just as one insert does.
pub proof fn lemma_insert_idempotent(ids: Seq<Seq<char>>, url: Seq<char>)
    requires
        ids.no_duplicates(),
    ensures
        inserted(inserted(ids, url), url) == inserted(ids, url),
        inserted(ids, url).no_duplicates(),
        exists|i: int| 0 <= i < inserted(ids, url).len() && inserted(ids, url)[i] == url,
        forall|i: int, j: int|
            0 <= i < inserted(ids, url).len() && 0 <= j < inserted(ids, url).len()
                && inserted(ids, url)[i] == url && inserted(ids, url)[j] == url ==> i == j,
{
    let once = inserted(ids, url);
    if ids.contains(url) {
        assert(once == ids);
    } else {
        assert(once.last() == url);
        assert(forall|i: int, j: int|
            0 <= i < once.len() && 0 <= j < once.len() && i != j ==> once[i] != once[j]);
    }
    assert(once.contains(url));
}

/// The durable record of every URL's lifecycle membership, plus the result
/// archive mapping a URL to its extracted document.
pub struct Frontier<A> {
    pub queued: Vec<String>,
    pub running: Vec<String>,
    pub visited: Vec<String>,
    pub warned: Vec<String>,
    pub results: Vec<(String, A)>,
}

impl<A> Frontier<A> {
    pub open spec fn queued_ids(&self) -> Seq<Seq<char>> {
        ids_of(self.queued)
    }

    pub open spec fn running_ids(&self) -> Seq<Seq<char>> {
        ids_of(self.running)
    }

    pub open spec fn visited_ids(&self) -> Seq<Seq<char>> {
        ids_of(self.visited)
    }

    pub open spec fn warned_ids(&self) -> Seq<Seq<char>> {
        ids_of(self.warned)
    }

    pub open spec fn result_ids(&self) -> Seq<Seq<char>> {
        Seq::new(self.results@.len(), |i: int| self.results@[i].0@)
    }

    /// Every set is a set: no URL appears twice within one table.
    pub open spec fn wf(&self) -> bool {
        &&& self.queued_ids().no_duplicates()
        &&& self.running_ids().no_duplicates()
        &&& self.visited_ids().no_duplicates()
        &&& self.warned_ids().no_duplicates()
        &&& self.result_ids().no_duplicates()
    }

    pub fn new() -> (r: Frontier<A>)
        ensures
            r.wf(),
            r.queued_ids() =~= Seq::<Seq<char>>::empty(),
            r.running_ids() =~= Seq::<Seq<char>>::empty(),
            r.visited_ids() =~= Seq::<Seq<char>>::empty(),
            r.warned_ids() =~= Seq::<Seq<char>>::empty(),
            r.result_ids() =~= Seq::<Seq<char>>::empty(),
    {
        let r = Frontier {
            queued: Vec::new(),
            running: Vec::new(),
            visited: Vec::new(),
            warned: Vec::new(),
            results: Vec::new(),
        };
        proof {
            assert(r.queued_ids() =~= Seq::<Seq<char>>::empty());
            assert(r.running_ids() =~= Seq::<Seq<char>>::empty());
            assert(r.visited_ids() =~= Seq::<Seq<char>>::empty());
            assert(r.warned_ids() =~= Seq::<Seq<char>>::empty());
            assert(r.result_ids() =~= Seq::<Seq<char>>::empty());
        }
        r
    }

    pub fn queued_insert(&mut self, url: &str)
        requires
            old(self).wf(),
        ensures
            final(self).wf(),
            final(self).queued_ids() == inserted(old(self).queued_ids(), url@),
            final(self).queued_ids().contains(url@),
            final(self).running == old(self).running,
            final(self).visited == old(self).visited,
            final(self).warned == old(self).warned,
            final(self).results == old(self).results,
    {
        list_insert(&mut self.queued, url);
    }

    pub fn running_insert(&mut self, url: &str)
        requires
            old(self).wf(),
        ensures
            final(self).wf(),
            final(self).running_ids() == inserted(old(self).running_ids(), url@),
            final(self).running_ids().contains(url@),
            final(self).queued == old(self).queued,
            final(self).visited == old(self).visited,
            final(self).warned == old(self).warned,
            final(self).results == old(self).results,
    {
        list_insert(&mut self.running, url);
    }

    pub fn visited_insert(&mut self, url: &str)
        requires
            old(self).wf(),
        ensures
            final(self).wf(),
            final(self).visited_ids() == inserted(old(self).visited_ids(), url@),
            final(self).visited_ids().contains(url@),
            final(self).queued == old(self).queued,
            final(self).running == old(self).running,
            final(self).warned == old(self).warned,
            final(self).results == old(self).results,
    {
        list_insert(&mut self.visited, url);
    }

    pub fn warned_insert(&mut self, url: &str)
        requires
            old(self).wf(),
        ensures
            final(self).wf(),
            final(self).warned_ids() == inserted(old(self).warned_ids(), url@),
            final(self).warned_ids().contains(url@),
            final(self).queued == old(self).queued,
            final(self).running == old(self).running,
            final(self).visited == old(self).visited,
            final(self).results == old(self).results,
    {
        list_insert(&mut self.warned, url);
    }

    pub fn queued_delete(&mut self, url: &str)
        requires
            old(self).wf(),
        ensures
            final(self).wf(),
            final(self).queued_ids() == old(self).queued_ids().remove_value(url@),
            !final(self).queued_ids().contains(url@),
            final(self).running == old(self).running,
            final(self).visited == old(self).visited,
            final(self).warned == old(self).warned,
            final(self).results == old(self).results,
    {
        list_delete(&mut self.queued, url);
    }

    pub fn running_delete(&mut self, url: &str)
        requires
            old(self).wf(),
        ensures
            final(self).wf(),
            final(self).running_ids() == old(self).running_ids().remove_value(url@),
            !final(self).running_ids().contains(url@),
            final(self).queued == old(self).queued,
            final(self).visited == old(self).visited,
            final(self).warned == old(self).warned,
            final(self).results == old(self).results,
    {
        list_delete(&mut self.running, url);
    }

    pub fn visited_delete(&mut self, url: &str)
        requires
            old(self).wf(),
        ensures
            final(self).wf(),
            final(self).visited_ids() == old(self).visited_ids().remove_value(url@),
            !final(self).visited_ids().contains(url@),
            final(self).queued == old(self).queued,
            final(self).running == old(self).running,
            final(self).warned == old(self).warned,
            final(self).results == old(self).results,
    {
        list_delete(&mut self.visited, url);
    }

    pub fn warned_delete(&mut self, url: &str)
        requires
            old(self).wf(),
        ensures
            final(self).wf(),
            final(self).warned_ids() == old(self).warned_ids().remove_value(url@),
            !final(self).warned_ids().contains(url@),
            final(self).queued == old(self).queued,
            final(self).running == old(self).running,
            final(self).visited == old(self).visited,
            final(self).results == old(self).results,
    {
        list_delete(&mut self.warned, url);
    }

    pub fn queued_is_exists(&self, url: &str) -> (r: bool)
        ensures
            r == self.queued_ids().contains(url@),
    {
        list_contains(&self.queued, url)
    }

    pub fn running_is_exists(&self, url: &str) -> (r: bool)
        ensures
            r == self.running_ids().contains(url@),
    {
        list_contains(&self.running, url)
    }

    pub fn visited_is_exists(&self, url: &str) -> (r: bool)
        ensures
            r == self.visited_ids().contains(url@),
    {
        list_contains(&self.visited, url)
    }

    pub fn warned_is_exists(&self, url: &str) -> (r: bool)
        ensures
            r == self.warned_ids().contains(url@),
    {
        list_contains(&self.warned, url)
    }

    pub fn queued_count(&self) -> (r: usize)
        ensures
            r == self.queued_ids().len(),
    {
        self.queued.len()
    }

    pub fn running_count(&self) -> (r: usize)
        ensures
            r == self.running_ids().len(),
    {
        self.running.len()
    }

    pub fn visited_count(&self) -> (r: usize)
        ensures
            r == self.visited_ids().len(),
    {
        self.visited.len()
    }

    pub fn warned_count(&self) -> (r: usize)
        ensures
            r == self.warned_ids().len(),
    {
        self.warned.len()
    }

    /// All queued URLs, oldest first.
    pub fn queued_get(&self) -> (r: Vec<String>)
        ensures
            ids_of(r) == self.queued_ids(),
    {
        list_members(&self.queued)
    }

    /// All running URLs, oldest first.
    pub fn running_get(&self) -> (r: Vec<String>)
        ensures
            ids_of(r) == self.running_ids(),
    {
        list_members(&self.running)
    }

    /// The first `n` queued URLs, oldest first; fewer when the queue is
    /// shorter than `n`.
    pub fn queued_get_n(&self, n: u32) -> (r: Vec<String>)
        ensures
            ids_of(r) == self.queued_ids().take(
                if n <= self.queued_ids().len() {
                    n as int
                } else {
                    self.queued_ids().len() as int
                },
            ),
    {
        let count: usize = if (n as usize) <= self.queued.len() {
            n as usize
        } else {
            self.queued.len()
        };
        let mut r: Vec<String> = Vec::new();
        let mut i: usize = 0;
        while i < count
            invariant
                0 <= i <= count <= self.queued@.len(),
                ids_of(r) == self.queued_ids().take(count as int).take(i as int),
            decreases count - i,
        {
            let ghost prev = ids_of(r);
            r.push(self.queued[i].clone());
            proof {
                let pre = self.queued_ids().take(count as int);
                assert(ids_of(r) =~= prev.push(self.queued_ids()[i as int]));
                assert(pre.take(i + 1) =~= pre.take(i as int).push(pre[i as int]));
            }
            i = i + 1;
        }
        proof {
            let pre = self.queued_ids().take(count as int);
            assert(pre.take(count as int) =~= pre);
        }
        r
    }

    fn results_find(&self, url: &str) -> (r: Option<usize>)
        ensures
            match r {
                Some(i) => i < self.results@.len() && self.results@[i as int].0@ == url@,
                None => !self.result_ids().contains(url@),
            },
    {
        let mut i: usize = 0;
        while i < self.results.len()
            invariant
                0 <= i <= self.results@.len(),
                forall|k: int| 0 <= k < i ==> self.result_ids()[k] != url@,
            decreases self.results@.len() - i,
        {
            assert(self.result_ids()[i as int] == self.results@[i as int].0@);
            if crate::text::str_eq(self.results[i].0.as_str(), url) {
                return Some(i);
            }
            i = i + 1;
        }
        None
    }

    pub fn results_is_exists(&self, url: &str) -> (r: bool)
        ensures
            r == self.result_ids().contains(url@),
    {
        match self.results_find(url) {
            Some(i) => {
                proof {
                    assert(self.result_ids()[i as int] == url@);
                }
                true
            },
            None => false,
        }
    }

    pub fn results_count(&self) -> (r: usize)
        ensures
            r == self.result_ids().len(),
    {
        self.results.len()
    }

    /// Insert-or-ignore into the result archive: the first record written
    /// for a URL wins, a later one for the same URL changes nothing.
    pub fn results_insert(&mut self, url: &str, record: A)
        requires
            old(self).wf(),
        ensures
            final(self).wf(),
            final(self).result_ids() == inserted(old(self).result_ids(), url@),
            final(self).result_ids().contains(url@),
            old(self).result_ids().contains(url@) ==> final(self).results == old(self).results,
            !old(self).result_ids().contains(url@) ==> {
                &&& final(self).results@.len() == old(self).results@.len() + 1
                &&& final(self).results@.drop_last() == old(self).results@
                &&& final(self).results@.last().0@ == url@
                &&& final(self).results@.last().1 == record
            },
            final(self).queued == old(self).queued,
            final(self).running == old(self).running,
            final(self).visited == old(self).visited,
            final(self).warned == old(self).warned,
    {
        let ghost prev = self.result_ids();
        match self.results_find(url) {
            Some(i) => {
                proof {
                    assert(self.result_ids()[i as int] == url@);
                }
            },
            None => {
                self.results.push((String::from_str(url), record));
                proof {
                    assert(self.result_ids() =~= prev.push(url@));
                    assert(self.result_ids().last() == url@);
                    assert(self.results@.drop_last() =~= old(self).results@);
                    assert(forall|i: int, j: int|
                        0 <= i < self.result_ids().len() && 0 <= j < self.result_ids().len()
                            && i != j ==> self.result_ids()[i] != self.result_ids()[j]);
                }
            },
        }
    }

    /// The record archived for a URL, if one is.
    pub fn results_get(&self, url: &str) -> (r: Option<&A>)
        ensures
            match r {
                Some(a) => exists|i: int|
                    0 <= i < self.results@.len() && (#[trigger] self.results@[i]).0@ == url@
                        && *a == self.results@[i].1,
                None => !self.result_ids().contains(url@),
            },
            r is Some <==> self.result_ids().contains(url@),
    {
        match self.results_find(url) {
            Some(i) => {
                proof {
                    assert(self.result_ids()[i as int] == url@);
                }
                Some(&self.results[i].1)
            },
            None => None,
        }
    }

    pub fn results_delete(&mut self, url: &str)
        requires
            old(self).wf(),
        ensures
            final(self).wf(),
            final(self).result_ids() == old(self).result_ids().remove_value(url@),
            !final(self).result_ids().contains(url@),
            final(self).queued == old(self).queued,
            final(self).running == old(self).running,
            final(self).visited == old(self).visited,
            final(self).warned == old(self).warned,
    {
        let ghost orig = self.result_ids();
        let mut i: usize = 0;
        while i < self.results.len()
            invariant
                0 <= i <= self.results@.len(),
                self.result_ids() == orig,
                self.results == old(self).results,
                orig == old(self).result_ids(),
                orig.no_duplicates(),
                old(self).wf(),
                self.queued == old(self).queued,
                self.running == old(self).running,
                self.visited == old(self).visited,
                self.warned == old(self).warned,
                forall|k: int| 0 <= k < i ==> orig[k] != url@,
            decreases self.results@.len() - i,
        {
            assert(self.result_ids()[i as int] == self.results@[i as int].0@);
            if crate::text::str_eq(self.results[i].0.as_str(), url) {
                proof {
                    assert(orig[i as int] == url@);
                    assert(orig.contains(url@));
                }
                self.results.remove(i);
                proof {
                    orig.index_of_first_ensures(url@);
                    match orig.index_of_first(url@) {
                        Some(idx) => {
                            assert(orig[idx] == url@);
                            assert(idx == i as int);
                        },
                        None => {
                            assert(false);
                        },
                    }
                    assert(forall|k: int| 0 <= k < i ==> self.result_ids()[k] == orig[k]);
                    assert(forall|k: int| i <= k < self.result_ids().len()
                        ==> self.result_ids()[k] == orig[k + 1]);
                    assert(self.result_ids() =~= orig.remove(i as int));
                    assert(forall|k: int| 0 <= k < self.result_ids().len()
                        ==> self.result_ids()[k] != url@);
                    assert forall|a: int, b: int|
                        0 <= a < self.result_ids().len() && 0 <= b < self.result_ids().len()
                            && a != b implies self.result_ids()[a] != self.result_ids()[b] by {
                        let na = if a < i as int { a } else { a + 1 };
                        let nb = if b < i as int { b } else { b + 1 };
                        assert(self.result_ids()[a] == orig[na]);
                        assert(self.result_ids()[b] == orig[nb]);
                    }
                }
                return ;
            }
            i = i + 1;
        }
        proof {
            orig.index_of_first_ensures(url@);
            assert(!orig.contains(url@));
        }
    }

    /// Startup recovery: every URL left in Running by an unclean shutdown is
    /// presumed orphaned, re-enqueued, and removed from Running. Queued URLs
    /// keep their order; the recovered ones follow them, in their Running
    /// order, except those already queued.
    pub fn merge_queue_and_running(&mut self)
        requires
            old(self).wf(),
        ensures
            final(self).wf(),
            final(self).queued_ids() == old(self).queued_ids() + old(self).running_ids().filter(
                |u: Seq<char>| !old(self).queued_ids().contains(u),
            ),
            final(self).running_ids().len() == 0,
            final(self).visited == old(self).visited,
            final(self).warned == old(self).warned,
            final(self).results == old(self).results,
    {
        broadcast use vstd::prelude::Seq::lemma_filter_push;
        broadcast use vstd::prelude::Seq::lemma_filter_contains_rev;

        let ghost oq = self.queued_ids();
        let ghost orun = self.running_ids();
        let ghost p = |u: Seq<char>| !oq.contains(u);
        let mut i: usize = 0;
        proof {
            assert(orun.take(0) =~= Seq::<Seq<char>>::empty());
            reveal(Seq::filter);
            assert(oq + orun.take(0).filter(p) =~= oq);
        }
        while i < self.running.len()
            invariant
                0 <= i <= self.running@.len(),
                self.running == old(self).running,
                self.visited == old(self).visited,
                self.warned == old(self).warned,
                self.results == old(self).results,
                oq == old(self).queued_ids(),
                orun == old(self).running_ids(),
                p == (|u: Seq<char>| !oq.contains(u)),
                old(self).wf(),
                self.queued_ids().no_duplicates(),
                self.queued_ids() == oq + orun.take(i as int).filter(p),
            decreases self.running@.len() - i,
        {
            let url = self.running[i].clone();
            proof {
                assert(orun[i as int] == self.running@[i as int]@);
            }
            let ghost cur = self.queued_ids();
            let ghost f = orun.take(i as int).filter(p);
            list_insert(&mut self.queued, url.as_str());
            proof {
                let u = orun[i as int];
                // `u` is not among the already recovered ones, because
                // Running has no duplicates.
                assert(!f.contains(u)) by {
                    if f.contains(u) {
                        orun.take(i as int).lemma_filter_contains_rev(p, u);
                        assert(orun.take(i as int).contains(u));
                        let k = choose|k: int|
                            0 <= k < i && orun.take(i as int)[k] == u;
                        assert(orun[k] == orun[i as int]);
                    }
                }
                // So membership in the queue at this step is membership in
                // the original queue.
                assert(cur.contains(u) <==> oq.contains(u)) by {
                    if cur.contains(u) {
                        let k = choose|k: int| 0 <= k < cur.len() && cur[k] == u;
                        if k < oq.len() {
                            assert(oq[k] == u);
                        } else {
                            assert(f[k - oq.len()] == u);
                        }
                    }
                    if oq.contains(u) {
                        let k = choose|k: int| 0 <= k < oq.len() && oq[k] == u;
                        assert(cur[k] == u);
                    }
                }
                assert(orun.take(i + 1) =~= orun.take(i as int).push(u));
                orun.take(i as int).lemma_filter_push(u, p);
                if oq.contains(u) {
                    assert(self.queued_ids() =~= oq + orun.take(i + 1).filter(p));
                } else {
                    assert(self.queued_ids() =~= cur.push(u));
                    assert(oq + f.push(u) =~= (oq + f).push(u));
                    assert(self.queued_ids() =~= oq + orun.take(i + 1).filter(p));
                }
            }
            i = i + 1;
        }
        self.running = Vec::new();
        proof {
            assert(orun.take(orun.len() as int) =~= orun);
            assert(self.running_ids() =~= Seq::<Seq<char>>::empty());
        }
    }

    /// Removes from Queued every URL that has already been terminally
    /// processed: present in Visited or in the result archive. Returns how
    /// many were removed.
    pub fn prune_queued(&mut self) -> (n: usize)
        requires
            old(self).wf(),
        ensures
            final(self).wf(),
            final(self).queued_ids() == old(self).queued_ids().filter(
                |u: Seq<char>| !old(self).visited_ids().contains(u)
                    && !old(self).result_ids().contains(u),
            ),
            n == old(self).queued_ids().len() - final(self).queued_ids().len(),
            final(self).running == old(self).running,
            final(self).visited == old(self).visited,
            final(self).warned == old(self).warned,
            final(self).results == old(self).results,
    {
        broadcast use vstd::prelude::Seq::lemma_filter_push;
        broadcast use vstd::prelude::Seq::lemma_filter_contains_rev;

        let ghost p = |u: Seq<char>| !old(self).visited_ids().contains(u)
            && !old(self).result_ids().contains(u);
        let mut kept: Vec<String> = Vec::new();
        let mut i: usize = 0;
        proof {
            reveal(Seq::filter);
            assert(self.queued_ids().take(0) =~= Seq::<Seq<char>>::empty());
        }
        while i < self.queued.len()
            invariant
                0 <= i <= self.queued@.len(),
                self.queued == old(self).queued,
                self.running == old(self).running,
                self.visited == old(self).visited,
                self.warned == old(self).warned,
                self.results == old(self).results,
                old(self).wf(),
                p == (|u: Seq<char>| !old(self).visited_ids().contains(u)
                    && !old(self).result_ids().contains(u)),
                ids_of(kept) == self.queued_ids().take(i as int).filter(p),
                ids_of(kept).no_duplicates(),
                kept@.len() <= i,
            decreases self.queued@.len() - i,
        {
            let ghost u = self.queued_ids()[i as int];
            let ghost prev = ids_of(kept);
            proof {
                assert(self.queued_ids()[i as int] == self.queued@[i as int]@);
            }
            let is_done = self.visited_is_exists(self.queued[i].as_str())
                || self.results_is_exists(self.queued[i].as_str());
            if !is_done {
                proof {
                    // The URL at `i` is not already among the kept ones,
                    // because the queue has no duplicates.
                    assert(!prev.contains(u)) by {
                        if prev.contains(u) {
                            self.queued_ids().take(i as int).lemma_filter_contains_rev(p, u);
                            let k = choose|k: int|
                                0 <= k < i && self.queued_ids().take(i as int)[k] == u;
                            assert(self.queued_ids()[k] == self.queued_ids()[i as int]);
                        }
                    }
                }
                kept.push(self.queued[i].clone());
                proof {
                    assert(ids_of(kept) =~= prev.push(u));
                }
            }
            proof {
                assert(self.queued_ids().take(i + 1) =~= self.queued_ids().take(i as int).push(
                    u,
                ));
                self.queued_ids().take(i as int).lemma_filter_push(u, p);
            }
            i = i + 1;
        }
        proof {
            assert(self.queued_ids().take(self.queued@.len() as int) =~= self.queued_ids());
        }
        let n = self.queued.len() - kept.len();
        proof {
            self.queued_ids().lemma_filter_len(p);
        }
        self.queued = kept;
        n
    }
}

} // verus!
