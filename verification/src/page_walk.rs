//! Breadth-first walk of a wizard's pages for `wizard lint`: start at the
//! entry page, read each page once, and queue the next-page hops that its
//! scripts name. Reading pages and scripts, and finding the hops in them,
//! is the caller's part; the walk decides which page comes next and keeps
//! every page from being read twice.

use vstd::prelude::*;
use crate::text::{copy_string, str_eq, views};

verus! {

/// Role of a page in the wizard graph.
#[derive(Debug, Clone, Copy, PartialEq, Eq)]
pub enum PageRole {
    /// The entry page named by `wizard.json`.
    Entry,
    /// A page reached through a next-page hop.
    Inner,
}

/// A page to read: its id, its HTML path (relative to the wizard root),
/// its role, and the page whose scripts led to it.
#[derive(Debug)]
pub struct PageVisit {
    /// Page id.
    pub id: String,
    /// HTML path relative to the wizard root.
    pub html: String,
    /// Entry or inner page.
    pub role: PageRole,
    /// Id of the page that links here (`None` for the entry page).
    pub from: Option<String>,
}

/// Mathematical form of a [`PageVisit`].
pub type VisitView = (Seq<char>, Seq<char>, PageRole, Option<Seq<char>>);

/// The view of a page visit.
pub open spec fn visit_view(v: PageVisit) -> VisitView {
    (v.id@, v.html@, v.role, crate::registry::opt_view(v.from))
}

/// Views of a queue of visits.
pub open spec fn visits_view(q: Seq<PageVisit>) -> Seq<VisitView> {
    q.map_values(|v: PageVisit| visit_view(v))
}

/// No value occurs twice.
pub open spec fn distinct(s: Seq<Seq<char>>) -> bool {
    forall|i: int, j: int| 0 <= i < j < s.len() ==> #[trigger] s[i] != #[trigger] s[j]
}

/// State of the walk.
#[derive(Debug)]
pub struct PageWalk {
    visited: Vec<String>,
    queue: Vec<PageVisit>,
    edges: Vec<(String, String)>,
}

/// Index of the first queued visit whose page was not read yet (the queue
/// length when there is none).
pub open spec fn first_unvisited(q: Seq<VisitView>, visited: Seq<Seq<char>>, i: int) -> int
    decreases q.len() - i,
{
    if i < 0 || i >= q.len() {
        q.len() as int
    } else if !visited.contains(q[i].1) {
        i
    } else {
        first_unvisited(q, visited, i + 1)
    }
}

proof fn lemma_first_unvisited(q: Seq<VisitView>, visited: Seq<Seq<char>>, i: int)
    requires
        0 <= i <= q.len(),
    ensures
        i <= first_unvisited(q, visited, i) <= q.len(),
        first_unvisited(q, visited, i) < q.len() ==> !visited.contains(
            q[first_unvisited(q, visited, i)].1,
        ),
    decreases q.len() - i,
{
    if i < q.len() {
        lemma_first_unvisited(q, visited, i + 1);
    }
}

/// Outcome of [`PageWalk::next_page`] on a queue, the pages read and the
/// edges: the visit taken (if any), and the new queue, pages read and edges.
pub open spec fn next_page_spec(
    q: Seq<VisitView>,
    visited: Seq<Seq<char>>,
    edges: Seq<(Seq<char>, Seq<char>)>,
) -> (Option<VisitView>, Seq<VisitView>, Seq<Seq<char>>, Seq<(Seq<char>, Seq<char>)>) {
    let k = first_unvisited(q, visited, 0);
    if k >= q.len() {
        (None, Seq::empty(), visited, edges)
    } else {
        (
            Some(q[k]),
            q.subrange(k + 1, q.len() as int),
            visited.push(q[k].1),
            match q[k].3 {
                Some(f) => edges.push((f, q[k].0)),
                None => edges,
            },
        )
    }
}

impl PageWalk {
    /// HTML paths of the pages read so far, in reading order.
    pub closed spec fn spec_visited(&self) -> Seq<Seq<char>> {
        views(self.visited@)
    }

    /// Visits still queued, front first.
    pub closed spec fn spec_queue(&self) -> Seq<VisitView> {
        visits_view(self.queue@)
    }

    /// Graph edges `(from_id, to_id)` recorded so far.
    pub closed spec fn spec_edges(&self) -> Seq<(Seq<char>, Seq<char>)> {
        self.edges@.map_values(|e: (String, String)| (e.0@, e.1@))
    }

    /// Start at the entry page.
    pub fn start(entry_id: &str, entry_html: &str) -> (r: Self)
        ensures
            r.spec_visited() == Seq::<Seq<char>>::empty(),
            r.spec_queue() == seq![(entry_id@, entry_html@, PageRole::Entry, None::<Seq<char>>)],
            r.spec_edges() == Seq::<(Seq<char>, Seq<char>)>::empty(),
    {
        let mut queue: Vec<PageVisit> = Vec::new();
        queue.push(
            PageVisit {
                id: crate::text::owned(entry_id),
                html: crate::text::owned(entry_html),
                role: PageRole::Entry,
                from: None,
            },
        );
        let r = PageWalk { visited: Vec::new(), queue, edges: Vec::new() };
        assert(r.spec_queue() =~= seq![(entry_id@, entry_html@, PageRole::Entry, None::<Seq<char>>)]);
        assert(r.spec_visited() =~= Seq::<Seq<char>>::empty());
        assert(r.spec_edges() =~= Seq::<(Seq<char>, Seq<char>)>::empty());
        r
    }

    /// HTML paths of the pages read so far, in reading order.
    pub fn visited(&self) -> (r: &Vec<String>)
        ensures
            views(r@) == self.spec_visited(),
    {
        &self.visited
    }

    /// Graph edges `(from_id, to_id)` recorded so far.
    pub fn edges(&self) -> (r: &Vec<(String, String)>)
        ensures
            r@.map_values(|e: (String, String)| (e.0@, e.1@)) == self.spec_edges(),
    {
        &self.edges
    }

    fn is_visited(&self, html: &str) -> (r: bool)
        ensures
            r == self.spec_visited().contains(html@),
    {
        let mut i: usize = 0;
        while i < self.visited.len()
            invariant
                i <= self.visited.len(),
                forall|k: int| 0 <= k < i ==> #[trigger] views(self.visited@)[k] != html@,
            decreases self.visited.len() - i,
        {
            if str_eq(self.visited[i].as_str(), html) {
                assert(views(self.visited@)[i as int] == html@);
                return true;
            }
            i = i + 1;
        }
        false
    }

    /// The next page to read: queued visits to pages already read are
    /// dropped; the first other one is taken, its page counted as read and
    /// the edge from the page that linked it recorded. `None` when the
    /// queue runs out.
    pub fn next_page(&mut self) -> (r: Option<PageVisit>)
        ensures
            (
                match r {
                    Some(v) => Some(visit_view(v)),
                    None => None,
                },
                final(self).spec_queue(),
                final(self).spec_visited(),
                final(self).spec_edges(),
            ) == next_page_spec(old(self).spec_queue(), old(self).spec_visited(), old(self).spec_edges()),
    {
        let ghost q0 = self.spec_queue();
        let ghost vis = self.spec_visited();
        let ghost e0 = self.spec_edges();
        proof {
            lemma_first_unvisited(q0, vis, 0);
        }
        let n: usize = self.queue.len();
        assert(q0.len() == n);
        let mut taken: usize = 0;
        while self.queue.len() > 0
            invariant
                q0 == old(self).spec_queue(),
                vis == old(self).spec_visited(),
                e0 == old(self).spec_edges(),
                self.spec_visited() == vis,
                self.spec_edges() == e0,
                taken <= q0.len(),
                q0.len() <= usize::MAX,
                self.queue@.len() == q0.len() - taken,
                self.spec_queue() == q0.subrange(taken as int, q0.len() as int),
                first_unvisited(q0, vis, 0) == first_unvisited(q0, vis, taken as int),
            decreases self.queue.len(),
        {
            let ghost qb = self.queue@;
            let v = self.queue.remove(0);
            assert(visits_view(qb)[0] == visit_view(qb[0]));
            assert(visits_view(qb)[0] == q0[taken as int]);
            assert(visits_view(self.queue@) =~= visits_view(qb).subrange(1, qb.len() as int));
            assert(visit_view(v) == q0[taken as int]);
            assert(self.spec_queue() =~= q0.subrange(taken + 1, q0.len() as int));
            if !self.is_visited(v.html.as_str()) {
                assert(first_unvisited(q0, vis, taken as int) == taken as int);
                let ghost ev = self.spec_edges();
                match &v.from {
                    Some(f) => {
                        self.edges.push((copy_string(f), copy_string(&v.id)));
                        assert(self.spec_edges() =~= ev.push((f@, v.id@)));
                    },
                    None => {},
                }
                let ghost vb = self.spec_visited();
                self.visited.push(copy_string(&v.html));
                assert(self.spec_visited() =~= vb.push(v.html@));
                return Some(v);
            }
            taken = taken + 1;
        }
        assert(q0.subrange(taken as int, q0.len() as int).len() == 0);
        assert(self.spec_queue() =~= Seq::<VisitView>::empty());
        None
    }

    /// Queue a next-page hop found on page `from_id`, unless its page was
    /// already read.
    pub fn enqueue(&mut self, id: &str, html: &str, from_id: &str)
        ensures
            final(self).spec_visited() == old(self).spec_visited(),
            final(self).spec_edges() == old(self).spec_edges(),
            old(self).spec_visited().contains(html@) ==> final(self).spec_queue() == old(
                self,
            ).spec_queue(),
            !old(self).spec_visited().contains(html@) ==> final(self).spec_queue() == old(
                self,
            ).spec_queue().push((id@, html@, PageRole::Inner, Some(from_id@))),
    {
        if !self.is_visited(html) {
            let ghost q = self.spec_queue();
            self.queue.push(
                PageVisit {
                    id: crate::text::owned(id),
                    html: crate::text::owned(html),
                    role: PageRole::Inner,
                    from: Some(crate::text::owned(from_id)),
                },
            );
            assert(self.spec_queue() =~= q.push((id@, html@, PageRole::Inner, Some(from_id@))));
        }
    }
}

/// Reading pages as the walk hands them out never reads a page twice: the
/// pages read stay distinct.
pub proof fn lemma_next_page_keeps_distinct(
    visited: Seq<Seq<char>>,
    q: Seq<VisitView>,
)
    requires
        distinct(visited),
    ensures
        first_unvisited(q, visited, 0) < q.len() ==> distinct(
            visited.push(q[first_unvisited(q, visited, 0)].1),
        ),
{
    lemma_first_unvisited(q, visited, 0);
    let k = first_unvisited(q, visited, 0);
    if k < q.len() {
        let s = visited.push(q[k].1);
        assert forall|i: int, j: int| 0 <= i < j < s.len() implies #[trigger] s[i] != #[trigger] s[j] by {
            if j == visited.len() {
                assert(visited[i] == s[i]);
            }
        }
    }
}

} // verus!
