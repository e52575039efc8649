//! Order-preserving assembly of a paginated fetch.
//!
//! The id-listing stage discovers pages one by one; a hydration task per
//! page fetches the page's entities concurrently and may finish in any
//! order.  The assembler keeps one slot per page in discovery order:
//! a task completes its own slot, and the final result concatenates the
//! slots strictly in page order, however the tasks finished.  The
//! progress tracker only ever counts upward, so progress reports are
//! monotonic even when they arrive out of page order.

use vstd::prelude::*;

use crate::ids::ProjectItemId;
use crate::work_item::WorkItem;
use crate::work_item::WorkItemView;

verus! {

/// One page of the id listing: the project-row ids it carries and the
/// listing's total count.
#[derive(Debug)]
pub struct Page {
    pub ids: Vec<ProjectItemId>,
    pub total_items: usize,
}

/// The hydrated entities of the pages, one slot per page in discovery
/// order; a pending slot has no value yet.
pub struct PageAssembler {
    slots: Vec<Option<Vec<WorkItem>>>,
}

/// The views of the hydrated pages.
pub open spec fn slot_views(slots: Seq<Option<Vec<WorkItem>>>) -> Seq<Option<Seq<WorkItemView>>> {
    slots.map_values(
        |s: Option<Vec<WorkItem>>|
            match s {
                Some(v) => Some(v@.map_values(|w: WorkItem| w@)),
                None => None,
            },
    )
}

/// Whether every page has been hydrated.
pub open spec fn all_complete(slots: Seq<Option<Seq<WorkItemView>>>) -> bool {
    forall|i: int| 0 <= i < slots.len() ==> (#[trigger] slots[i]) is Some
}

/// The hydrated pages, concatenated strictly in page order.
pub open spec fn flatten_pages(slots: Seq<Option<Seq<WorkItemView>>>) -> Seq<WorkItemView>
    decreases slots.len(),
{
    if slots.len() == 0 {
        Seq::empty()
    } else {
        flatten_pages(slots.drop_last()) + match slots.last() {
            Some(v) => v,
            None => Seq::empty(),
        }
    }
}

impl PageAssembler {
    pub closed spec fn pages(self) -> Seq<Option<Seq<WorkItemView>>> {
        slot_views(self.slots@)
    }

    /// An assembler with no pages discovered yet.
    pub fn new() -> (r: PageAssembler)
        ensures
            r.pages() == Seq::<Option<Seq<WorkItemView>>>::empty(),
    {
        let r = PageAssembler { slots: Vec::new() };
        proof {
            assert(r.pages() =~= Seq::<Option<Seq<WorkItemView>>>::empty());
        }
        r
    }

    /// Registers a newly discovered page and hands back its slot, keeping
    /// discovery order.
    pub fn begin_page(&mut self) -> (idx: usize)
        ensures
            idx == old(self).pages().len(),
            final(self).pages() == old(self).pages().push(None),
    {
        let idx = self.slots.len();
        self.slots.push(None);
        proof {
            assert(self.pages() =~= old(self).pages().push(None));
        }
        idx
    }

    /// Fills one page's slot with its hydrated entities; each slot is
    /// filled exactly once, in whatever order the tasks finish.
    pub fn complete_page(&mut self, idx: usize, items: Vec<WorkItem>)
        requires
            idx < old(self).pages().len(),
            old(self).pages()[idx as int] is None,
        ensures
            final(self).pages() == old(self).pages().update(
                idx as int,
                Some(items@.map_values(|w: WorkItem| w@)),
            ),
    {
        self.slots.set(idx, Some(items));
        proof {
            assert(self.pages() =~= old(self).pages().update(
                idx as int,
                Some(items@.map_values(|w: WorkItem| w@)),
            ));
        }
    }

    /// Concatenates the hydrated pages strictly in page order; nothing
    /// until every page is hydrated.
    pub fn assemble(self) -> (r: Option<Vec<WorkItem>>)
        ensures
            r is Some <==> all_complete(self.pages()),
            r is Some ==> r->0@.map_values(|w: WorkItem| w@) == flatten_pages(self.pages()),
    {
        let ghost ps = self.pages();
        let mut out: Vec<WorkItem> = Vec::new();
        let mut i: usize = 0;
        proof {
            assert(ps.take(0) =~= Seq::<Option<Seq<WorkItemView>>>::empty());
            assert(out@.map_values(|w: WorkItem| w@) =~= flatten_pages(ps.take(0)));
        }
        while i < self.slots.len()
            invariant
                i <= self.slots.len(),
                ps == self.pages(),
                ps == slot_views(self.slots@),
                ps.len() == self.slots.len(),
                forall|j: int| 0 <= j < i ==> (#[trigger] ps[j]) is Some,
                out@.map_values(|w: WorkItem| w@) == flatten_pages(ps.take(i as int)),
            decreases self.slots.len() - i,
        {
            let ghost before = out@.map_values(|w: WorkItem| w@);
            match &self.slots[i] {
                Some(page) => {
                    let ghost pv = page@.map_values(|w: WorkItem| w@);
                    proof {
                        assert(pv.take(0) =~= Seq::<WorkItemView>::empty());
                        assert(before + pv.take(0) =~= before);
                    }
                    let mut k: usize = 0;
                    while k < page.len()
                        invariant
                            k <= page.len(),
                            i < self.slots.len(),
                            ps == slot_views(self.slots@),
                            self.slots@[i as int] is Some && page == self.slots@[i as int]->0,
                            pv == page@.map_values(|w: WorkItem| w@),
                            out@.map_values(|w: WorkItem| w@) == before + pv.take(k as int),
                        decreases page.len() - k,
                    {
                        let ghost prev = out@.map_values(|w: WorkItem| w@);
                        out.push(page[k].clone());
                        proof {
                            assert(out@.map_values(|w: WorkItem| w@) =~= prev.push(pv[k as int]));
                            assert(pv.take(k + 1 as int) =~= pv.take(k as int).push(pv[k as int]));
                            assert(out@.map_values(|w: WorkItem| w@) =~= before + pv.take(
                                k + 1 as int,
                            ));
                        }
                        k += 1;
                    }
                    proof {
                        assert(pv.take(page.len() as int) =~= pv);
                        assert(ps.take(i + 1 as int).drop_last() =~= ps.take(i as int));
                        assert(ps.take(i + 1 as int).last() == ps[i as int]);
                        assert(ps[i as int] == Some(page@.map_values(|w: WorkItem| w@)));
                        assert(out@.map_values(|w: WorkItem| w@) =~= flatten_pages(
                            ps.take(i + 1 as int),
                        ));
                    }
                },
                None => {
                    proof {
                        assert(ps[i as int] is None);
                        assert(!all_complete(ps));
                    }
                    return None;
                },
            }
            i += 1;
        }
        proof {
            assert(ps.take(self.slots.len() as int) =~= ps);
        }
        Some(out)
    }
}

/// A monotonic progress counter: hydrated-entity counts only ever add up,
/// so progress reports never go backwards, whatever order the page tasks
/// finish in.
pub struct ProgressTracker {
    pub loaded: usize,
    pub total: usize,
}

impl ProgressTracker {
    /// A tracker that has seen nothing yet.
    pub fn new() -> (r: ProgressTracker)
        ensures
            r.loaded == 0,
            r.total == 0,
    {
        ProgressTracker { loaded: 0, total: 0 }
    }

    /// Counts one page's worth of hydrated entities and adopts the latest
    /// total; the running count never decreases.
    pub fn record(&mut self, count: usize, total: usize) -> (r: (usize, usize))
        ensures
            final(self).loaded >= old(self).loaded,
            final(self).loaded == if old(self).loaded + count <= usize::MAX {
                old(self).loaded + count
            } else {
                usize::MAX as int
            },
            final(self).total == total,
            r.0 == final(self).loaded && r.1 == total,
    {
        self.loaded = if count <= usize::MAX - self.loaded {
            self.loaded + count
        } else {
            usize::MAX
        };
        self.total = total;
        (self.loaded, self.total)
    }
}

} // verus!
