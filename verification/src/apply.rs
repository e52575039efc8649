//! Optimistic application of pending changes over the entity store.
//!
//! `apply_changes` mutates the cached entities in place for preview and
//! hands back the pre-change snapshot of every entity it touched, so the
//! caller can roll the preview back exactly.  Scalar changes replace one
//! field; a `SetParent` change is a hierarchy edit: it removes the child
//! from its prior parent's sub-issue list, sets the child's parent edge,
//! and appends the child to the new parent's sub-issue list.  An
//! `AddToProject` change is a no-op here: its entity legitimately does not
//! exist in the tree yet.  A change whose target is unknown is skipped.

use vstd::prelude::*;

use crate::changes::Change;
use crate::changes::ChangeData;
use crate::changes::ChangeDataView;
use crate::changes::Changes;
use crate::changes::ChangeView;
use crate::delay_load::DelayLoad;
use crate::delay_load::DelayLoadView;
use crate::ids::clone_opt_option_id;
use crate::ids::ids_view;
use crate::ids::WorkItemId;
use crate::work_item::IssueView;
use crate::work_item::ProjectItemView;
use crate::work_item::WorkItem;
use crate::work_item::WorkItemData;
use crate::work_item::WorkItemDataView;
use crate::work_item::WorkItemView;
use crate::work_items::distinct_ids;
use crate::work_items::items_map;
use crate::work_items::lemma_items_map_contains_at;
use crate::work_items::lemma_items_map_dom;
use crate::work_items::lemma_items_map_len;
use crate::work_items::lemma_items_map_missing;
use crate::work_items::WorkItems;

verus! {

// ---------------------------------------------------------------------------
// The originals map
// ---------------------------------------------------------------------------

/// The pre-change snapshots of the entities an `apply_changes` call
/// touched, keyed by entity id; first touch wins, so the snapshot is the
/// value before any change of the batch reached the entity.
#[derive(Debug)]
pub struct Originals {
    items: Vec<WorkItem>,
}

impl Originals {
    pub closed spec fn item_views(self) -> Seq<WorkItemView> {
        self.items@.map_values(|w: WorkItem| w@)
    }

    #[verifier::type_invariant]
    spec fn wf(self) -> bool {
        distinct_ids(self.item_views())
    }
}

impl View for Originals {
    type V = Map<Seq<char>, WorkItemView>;

    closed spec fn view(&self) -> Map<Seq<char>, WorkItemView> {
        items_map(self.item_views())
    }
}

/// Remembering a snapshot: kept only on first touch.
pub open spec fn record_spec(o: Map<Seq<char>, WorkItemView>, w: WorkItemView) -> Map<
    Seq<char>,
    WorkItemView,
> {
    if o.contains_key(w.id) {
        o
    } else {
        o.insert(w.id, w)
    }
}

impl Originals {
    /// An empty originals map.
    pub fn new() -> (r: Originals)
        ensures
            r@ == Map::<Seq<char>, WorkItemView>::empty(),
    {
        Originals { items: Vec::new() }
    }

    fn find_index(&self, id: &WorkItemId) -> (r: Option<usize>)
        ensures
            match r {
                Some(i) => i < self.item_views().len() && self.item_views()[i as int].id == id@,
                None => forall|j: int|
                    0 <= j < self.item_views().len() ==> self.item_views()[j].id != id@,
            },
    {
        let mut i: usize = 0;
        while i < self.items.len()
            invariant
                i <= self.items.len(),
                forall|j: int| 0 <= j < i ==> self.item_views()[j].id != id@,
            decreases self.items.len() - i,
        {
            if self.items[i].id == *id {
                assert(self.item_views()[i as int].id == id@);
                return Some(i);
            }
            assert(self.item_views()[i as int].id != id@);
            i += 1;
        }
        None
    }

    /// Remembers the snapshot, unless one is already held for its id.
    pub fn record(&mut self, item: &WorkItem)
        ensures
            final(self)@ == record_spec(old(self)@, item@),
    {
        proof {
            use_type_invariant(&*self);
        }
        let ghost vs = self.item_views();
        match self.find_index(&item.id) {
            Some(i) => {
                proof {
                    lemma_items_map_contains_at(vs, i as int);
                }
            },
            None => {
                proof {
                    lemma_items_map_missing(vs, item@.id);
                }
                let cloned = item.clone();
                let mut items: Vec<WorkItem> = Vec::new();
                core::mem::swap(&mut items, &mut self.items);
                items.push(cloned);
                proof {
                    let vs2 = items@.map_values(|w: WorkItem| w@);
                    assert(vs2.drop_last() =~= vs);
                    assert(vs2.last() == item@);
                    assert forall|x: int, y: int|
                        0 <= x < vs2.len() && 0 <= y < vs2.len() && x != y implies vs2[x].id
                        != vs2[y].id by {
                        if x < vs.len() && y < vs.len() {
                            assert(vs2[x] == vs[x] && vs2[y] == vs[y]);
                        } else if x < vs.len() {
                            assert(vs2[x] == vs[x] && vs2[y] == item@);
                        } else {
                            assert(vs2[x] == item@ && vs2[y] == vs[y]);
                        }
                    }
                }
                core::mem::swap(&mut items, &mut self.items);
            },
        }
    }

    /// The held snapshot for an id, if any.
    pub fn get(&self, id: &WorkItemId) -> (r: Option<&WorkItem>)
        ensures
            match r {
                Some(w) => self@.contains_key(id@) && w@ == self@[id@],
                None => !self@.contains_key(id@),
            },
    {
        proof {
            use_type_invariant(&*self);
        }
        match self.find_index(id) {
            Some(i) => {
                proof {
                    lemma_items_map_contains_at(self.item_views(), i as int);
                }
                Some(&self.items[i])
            },
            None => {
                proof {
                    lemma_items_map_missing(self.item_views(), id@);
                }
                None
            },
        }
    }

    /// The number of held snapshots.
    pub fn len(&self) -> (r: usize)
        ensures
            r == self@.dom().len(),
    {
        proof {
            use_type_invariant(&*self);
            lemma_items_map_len(self.item_views());
        }
        self.items.len()
    }

    /// The held snapshots.
    pub fn snapshots(&self) -> (r: &Vec<WorkItem>)
        ensures
            r@.map_values(|w: WorkItem| w@) == self.item_views(),
            distinct_ids(self.item_views()),
            self@ == items_map(self.item_views()),
    {
        proof {
            use_type_invariant(&*self);
        }
        &self.items
    }
}

impl Default for Originals {
    /// An empty originals map.
    fn default() -> (r: Self)
        ensures
            r@ == Map::<Seq<char>, WorkItemView>::empty(),
    {
        Originals { items: Vec::new() }
    }
}

impl PartialEq for Originals {
    fn eq(&self, other: &Self) -> (r: bool) {
        proof {
            use_type_invariant(&*self);
            use_type_invariant(&*other);
        }
        if self.items.len() != other.items.len() {
            proof {
                lemma_items_map_len(self.item_views());
                lemma_items_map_len(other.item_views());
                assert(self@.dom().len() != other@.dom().len());
                assert(self@ != other@);
            }
            return false;
        }
        let ghost s = self.item_views();
        let ghost o = other.item_views();
        let mut i: usize = 0;
        while i < self.items.len()
            invariant
                i <= self.items.len(),
                s == self.item_views(),
                o == other.item_views(),
                distinct_ids(s),
                distinct_ids(o),
                self.items.len() == other.items.len(),
                forall|j: int|
                    0 <= j < i ==> items_map(o).contains_key(s[j].id) && items_map(o)[s[j].id]
                        == s[j],
            decreases self.items.len() - i,
        {
            match other.find_index(&self.items[i].id) {
                Some(k) => {
                    if !(self.items[i] == other.items[k]) {
                        proof {
                            lemma_items_map_contains_at(o, k as int);
                            lemma_items_map_contains_at(s, i as int);
                        }
                        return false;
                    }
                    proof {
                        lemma_items_map_contains_at(o, k as int);
                    }
                },
                None => {
                    proof {
                        lemma_items_map_missing(o, s[i as int].id);
                        lemma_items_map_contains_at(s, i as int);
                    }
                    return false;
                },
            }
            i += 1;
        }
        proof {
            assert forall|k: Seq<char>| #[trigger]
                self@.contains_key(k) implies other@.contains_key(k) && other@[k] == self@[k] by {
                lemma_items_map_dom(s, k);
                let j = choose|j: int| 0 <= j < s.len() && s[j].id == k;
                lemma_items_map_contains_at(s, j);
            }
            lemma_items_map_len(s);
            lemma_items_map_len(o);
            assert(self@.dom().subset_of(other@.dom()));
            vstd::set_lib::lemma_subset_equality(self@.dom(), other@.dom());
            assert(self@ =~= other@);
        }
        true
    }
}

impl vstd::std_specs::cmp::PartialEqSpecImpl for Originals {
    open spec fn obeys_eq_spec() -> bool {
        true
    }

    open spec fn eq_spec(&self, other: &Self) -> bool {
        self@ == other@
    }
}

// ---------------------------------------------------------------------------
// What one change does to the store
// ---------------------------------------------------------------------------

/// The new value of an entity after one scalar field change.  An issue-type
/// change on an entity that is not an issue leaves it untouched.
pub open spec fn apply_data_change(w: WorkItemView, d: ChangeDataView) -> WorkItemView {
    match d {
        ChangeDataView::IssueType(v) => if w.data is Issue {
            WorkItemView {
                data: WorkItemDataView::Issue(
                    IssueView { issue_type: DelayLoadView::Loaded(v), ..w.data->Issue_0 },
                ),
                ..w
            }
        } else {
            w
        },
        ChangeDataView::Status(v) => WorkItemView {
            project_item: ProjectItemView { status: v, ..w.project_item },
            ..w
        },
        ChangeDataView::Blocked(v) => WorkItemView {
            project_item: ProjectItemView { blocked: DelayLoadView::Loaded(v), ..w.project_item },
            ..w
        },
        ChangeDataView::Epic(v) => WorkItemView {
            project_item: ProjectItemView { epic: v, ..w.project_item },
            ..w
        },
        ChangeDataView::Iteration(v) => WorkItemView {
            project_item: ProjectItemView { iteration: DelayLoadView::Loaded(v), ..w.project_item },
            ..w
        },
        ChangeDataView::Kind(v) => WorkItemView {
            project_item: ProjectItemView { kind: DelayLoadView::Loaded(v), ..w.project_item },
            ..w
        },
        ChangeDataView::Workstream(v) => WorkItemView {
            project_item: ProjectItemView { workstream: DelayLoadView::Loaded(v), ..w.project_item },
            ..w
        },
        ChangeDataView::Estimate(v) => WorkItemView {
            project_item: ProjectItemView { estimate: v, ..w.project_item },
            ..w
        },
        ChangeDataView::Priority(v) => WorkItemView {
            project_item: ProjectItemView { priority: v, ..w.project_item },
            ..w
        },
        ChangeDataView::SetParent(_) => w,
        ChangeDataView::AddToProject => w,
    }
}

/// The prior parent edge of the change's target, if the target is an issue
/// with a parent.
pub open spec fn old_parent_of(m: Map<Seq<char>, WorkItemView>, cid: Seq<char>) -> Option<
    Seq<char>,
> {
    if m.contains_key(cid) && m[cid].data is Issue {
        m[cid].data->Issue_0.parent_id
    } else {
        None
    }
}

/// The sub-issue id list with every occurrence of one id removed.
pub open spec fn without_id(s: Seq<Seq<char>>, id: Seq<char>) -> Seq<Seq<char>> {
    s.filter(|k: Seq<char>| k != id)
}

/// The store after re-parenting `cid` under `p`: the child leaves its prior
/// parent's sub-issue list, its parent edge is set, and it is appended to
/// the new parent's sub-issue list.  Each step applies only where its
/// entity exists and is an issue.
pub open spec fn set_parent_map(m: Map<Seq<char>, WorkItemView>, cid: Seq<char>, p: Seq<char>) -> Map<
    Seq<char>,
    WorkItemView,
> {
    let m1 = match old_parent_of(m, cid) {
        Some(opid) => if m.contains_key(opid) && m[opid].data is Issue {
            m.insert(
                opid,
                WorkItemView {
                    data: WorkItemDataView::Issue(
                        IssueView {
                            sub_issues: without_id(m[opid].data->Issue_0.sub_issues, cid),
                            ..m[opid].data->Issue_0
                        },
                    ),
                    ..m[opid]
                },
            )
        } else {
            m
        },
        None => m,
    };
    let m2 = if m1.contains_key(cid) && m1[cid].data is Issue {
        m1.insert(
            cid,
            WorkItemView {
                data: WorkItemDataView::Issue(
                    IssueView { parent_id: Some(p), ..m1[cid].data->Issue_0 },
                ),
                ..m1[cid]
            },
        )
    } else {
        m1
    };
    if m2.contains_key(p) && m2[p].data is Issue {
        m2.insert(
            p,
            WorkItemView {
                data: WorkItemDataView::Issue(
                    IssueView {
                        sub_issues: m2[p].data->Issue_0.sub_issues.push(cid),
                        ..m2[p].data->Issue_0
                    },
                ),
                ..m2[p]
            },
        )
    } else {
        m2
    }
}

/// One step of `apply_changes`: what one pending change does to the store
/// and to the originals map.  A change for an unknown entity, and an
/// add-to-project change, leave both untouched.
pub open spec fn apply_step(
    m: Map<Seq<char>, WorkItemView>,
    o: Map<Seq<char>, WorkItemView>,
    c: ChangeView,
) -> (Map<Seq<char>, WorkItemView>, Map<Seq<char>, WorkItemView>) {
    let cid = c.work_item_id;
    if c.data is AddToProject || !m.contains_key(cid) {
        (m, o)
    } else {
        match c.data {
            ChangeDataView::SetParent(p) => {
                let o1 = record_spec(o, m[cid]);
                let o2 = match old_parent_of(m, cid) {
                    Some(opid) => if m.contains_key(opid) {
                        record_spec(o1, m[opid])
                    } else {
                        o1
                    },
                    None => o1,
                };
                let o3 = if m.contains_key(p) {
                    record_spec(o2, m[p])
                } else {
                    o2
                };
                (set_parent_map(m, cid, p), o3)
            },
            _ => (m.insert(cid, apply_data_change(m[cid], c.data)), record_spec(o, m[cid])),
        }
    }
}

/// The fold of `apply_step` over a batch of changes, in ledger order.
pub open spec fn apply_seq(
    m: Map<Seq<char>, WorkItemView>,
    o: Map<Seq<char>, WorkItemView>,
    cs: Seq<ChangeView>,
) -> (Map<Seq<char>, WorkItemView>, Map<Seq<char>, WorkItemView>)
    decreases cs.len(),
{
    if cs.len() == 0 {
        (m, o)
    } else {
        let (m2, o2) = apply_step(m, o, cs[0]);
        apply_seq(m2, o2, cs.drop_first())
    }
}

/// Whether the map stores every entity under its own id.  The store map
/// always does, and change application keeps it that way.
pub open spec fn id_coherent(m: Map<Seq<char>, WorkItemView>) -> bool {
    forall|k: Seq<char>| #[trigger] m.contains_key(k) ==> m[k].id == k
}

proof fn lemma_apply_seq_snoc(
    m: Map<Seq<char>, WorkItemView>,
    o: Map<Seq<char>, WorkItemView>,
    cs: Seq<ChangeView>,
    c: ChangeView,
)
    ensures
        apply_seq(m, o, cs.push(c)) == apply_step(
            apply_seq(m, o, cs).0,
            apply_seq(m, o, cs).1,
            c,
        ),
    decreases cs.len(),
{
    if cs.len() == 0 {
        assert(cs.push(c)[0] == c);
        assert(cs.push(c).drop_first() =~= Seq::<ChangeView>::empty());
        let (m2, o2) = apply_step(m, o, c);
        assert(apply_seq(m, o, cs.push(c)) == apply_seq(m2, o2, cs.push(c).drop_first()));
        assert(apply_seq(m, o, cs) == (m, o));
    } else {
        let (m2, o2) = apply_step(m, o, cs[0]);
        assert(cs.push(c)[0] == cs[0]);
        assert(cs.push(c).drop_first() =~= cs.drop_first().push(c));
        assert(apply_seq(m, o, cs.push(c)) == apply_seq(m2, o2, cs.drop_first().push(c)));
        assert(apply_seq(m, o, cs) == apply_seq(m2, o2, cs.drop_first()));
        lemma_apply_seq_snoc(m2, o2, cs.drop_first(), c);
    }
}

proof fn lemma_apply_data_change_id(w: WorkItemView, d: ChangeDataView)
    ensures
        apply_data_change(w, d).id == w.id,
{
}

/// One step never adds or drops entities; it only rewrites entities that it
/// also records, and every newly recorded snapshot is the entity's value
/// before the step.
proof fn lemma_apply_step_frame(
    m: Map<Seq<char>, WorkItemView>,
    o: Map<Seq<char>, WorkItemView>,
    c: ChangeView,
)
    requires
        id_coherent(m),
    ensures
        apply_step(m, o, c).0.dom() == m.dom(),
        id_coherent(apply_step(m, o, c).0),
        forall|id: Seq<char>|
            m.contains_key(id) && !(#[trigger] apply_step(m, o, c).1.contains_key(id))
                ==> apply_step(m, o, c).0[id] == m[id],
        forall|id: Seq<char>| #[trigger]
            apply_step(m, o, c).1.contains_key(id) ==> if o.contains_key(id) {
                apply_step(m, o, c).1[id] == o[id]
            } else {
                m.contains_key(id) && apply_step(m, o, c).1[id] == m[id]
            },
        forall|id: Seq<char>| #[trigger] o.contains_key(id) ==> apply_step(m, o, c).1.contains_key(id),
{
    let (m2, o2) = apply_step(m, o, c);
    let cid = c.work_item_id;
    if c.data is AddToProject || !m.contains_key(cid) {
    } else {
        assert(m[cid].id == cid);
        match c.data {
            ChangeDataView::SetParent(p) => {
                let o1 = record_spec(o, m[cid]);
                let ox = match old_parent_of(m, cid) {
                    Some(opid) => if m.contains_key(opid) {
                        record_spec(o1, m[opid])
                    } else {
                        o1
                    },
                    None => o1,
                };
                let o3 = if m.contains_key(p) {
                    record_spec(ox, m[p])
                } else {
                    ox
                };
                assert(o2 == o3);
                assert(o1.contains_key(cid));
                if old_parent_of(m, cid) is Some {
                    let opid = old_parent_of(m, cid)->0;
                    if m.contains_key(opid) {
                        assert(m[opid].id == opid);
                        assert(ox.contains_key(opid));
                    }
                }
                if m.contains_key(p) {
                    assert(m[p].id == p);
                    assert(o3.contains_key(p));
                }
                let ma = match old_parent_of(m, cid) {
                    Some(opid) => if m.contains_key(opid) && m[opid].data is Issue {
                        m.insert(
                            opid,
                            WorkItemView {
                                data: WorkItemDataView::Issue(
                                    IssueView {
                                        sub_issues: without_id(
                                            m[opid].data->Issue_0.sub_issues,
                                            cid,
                                        ),
                                        ..m[opid].data->Issue_0
                                    },
                                ),
                                ..m[opid]
                            },
                        )
                    } else {
                        m
                    },
                    None => m,
                };
                let mb = if ma.contains_key(cid) && ma[cid].data is Issue {
                    ma.insert(
                        cid,
                        WorkItemView {
                            data: WorkItemDataView::Issue(
                                IssueView { parent_id: Some(p), ..ma[cid].data->Issue_0 },
                            ),
                            ..ma[cid]
                        },
                    )
                } else {
                    ma
                };
                let mc = if mb.contains_key(p) && mb[p].data is Issue {
                    mb.insert(
                        p,
                        WorkItemView {
                            data: WorkItemDataView::Issue(
                                IssueView {
                                    sub_issues: mb[p].data->Issue_0.sub_issues.push(cid),
                                    ..mb[p].data->Issue_0
                                },
                            ),
                            ..mb[p]
                        },
                    )
                } else {
                    mb
                };
                assert(m2 == mc);
                assert(ma.dom() =~= m.dom());
                assert(mb.dom() =~= ma.dom());
                assert(mc.dom() =~= mb.dom());
                assert(id_coherent(mc)) by {
                    assert forall|k: Seq<char>| #[trigger] mc.contains_key(k) implies mc[k].id
                        == k by {
                        assert(m.contains_key(k));
                    }
                }
                assert forall|id: Seq<char>|
                    m.contains_key(id) && !(#[trigger] o3.contains_key(id)) implies mc[id]
                    == m[id] by {
                    assert(id != cid);
                    assert(ma[id] == m[id]);
                    assert(mb[id] == ma[id]);
                    assert(mc[id] == mb[id]);
                }
            },
            _ => {
                assert(m2.dom() =~= m.dom());
                lemma_apply_data_change_id(m[cid], c.data);
                assert(id_coherent(m2)) by {
                    assert forall|k: Seq<char>| #[trigger] m2.contains_key(k) implies m2[k].id
                        == k by {
                        assert(m.contains_key(k));
                    }
                }
            },
        }
    }
}

// ---------------------------------------------------------------------------
// Exec application
// ---------------------------------------------------------------------------

/// The sub-issue list with every occurrence of one id removed.
fn remove_id(v: &Vec<WorkItemId>, id: &WorkItemId) -> (r: Vec<WorkItemId>)
    ensures
        ids_view(r@) == without_id(ids_view(v@), id@),
{
    let ghost pred = |k: Seq<char>| k != id@;
    let mut r: Vec<WorkItemId> = Vec::new();
    let mut i: usize = 0;
    proof {
        assert(ids_view(v@).take(0) =~= Seq::<Seq<char>>::empty());
        assert(ids_view(r@) =~= ids_view(v@).take(0).filter(pred));
    }
    while i < v.len()
        invariant
            i <= v.len(),
            ids_view(v@).len() == v.len(),
            ids_view(r@) == ids_view(v@).take(i as int).filter(pred),
            pred == (|k: Seq<char>| k != id@),
        decreases v.len() - i,
    {
        let ghost before = ids_view(r@);
        let ghost t1 = ids_view(v@).take(i as int);
        let ghost t2 = ids_view(v@).take(i + 1 as int);
        proof {
            assert(t2.drop_last() =~= t1);
            assert(t2.last() == ids_view(v@)[i as int]);
            reveal_with_fuel(Seq::filter, 2);
        }
        if !(v[i] == *id) {
            r.push(v[i].clone());
            proof {
                assert(ids_view(v@)[i as int] == v@[i as int]@);
                assert(pred(t2.last()));
                assert(t2.filter(pred) =~= t1.filter(pred).push(t2.last()));
                assert(ids_view(r@) =~= before.push(v@[i as int]@));
            }
        } else {
            proof {
                assert(!pred(t2.last()));
                assert(t2.filter(pred) =~= t1.filter(pred));
            }
        }
        i += 1;
    }
    proof {
        assert(ids_view(v@).take(v.len() as int) =~= ids_view(v@));
        assert(without_id(ids_view(v@), id@) == ids_view(v@).filter(pred));
    }
    r
}

impl WorkItems {
    /// Applies every pending change over the store, in ledger order, and
    /// hands back the pre-change snapshot of every entity that was touched:
    /// the target of each applied change, and for a re-parenting also the
    /// prior and the new parent.  Entities unknown to the store are skipped,
    /// as are add-to-project changes; no entity is added or removed, and an
    /// entity never touched keeps its value.  Re-applying the returned
    /// snapshots restores the pre-change store exactly.
    pub fn apply_changes(&mut self, changes: &Changes) -> (r: Originals)
        ensures
            final(self)@.order == old(self)@.order,
            final(self)@.map == apply_seq(old(self)@.map, Map::empty(), changes.change_seq()).0,
            r@ == apply_seq(old(self)@.map, Map::empty(), changes.change_seq()).1,
            final(self)@.map.dom() == old(self)@.map.dom(),
            forall|id: Seq<char>| #[trigger]
                r@.contains_key(id) ==> old(self)@.map.contains_key(id) && r@[id]
                    == old(self)@.map[id],
            forall|id: Seq<char>|
                old(self)@.map.contains_key(id) && !(#[trigger] r@.contains_key(id))
                    ==> final(self)@.map[id] == old(self)@.map[id],
    {
        let pending = changes.pending();
        let ghost cs = changes.change_seq();
        let ghost m0 = self@.map;
        let ghost order0 = self@.order;
        let mut originals = Originals::new();
        let mut i: usize = 0;
        proof {
            assert(cs.take(0) =~= Seq::<ChangeView>::empty());
        }
        while i < pending.len()
            invariant
                i <= pending.len(),
                pending@.map_values(|c: Change| c@) == cs,
                self@.order == order0,
                (self@.map, originals@) == apply_seq(m0, Map::<Seq<char>, WorkItemView>::empty(), cs.take(i as int)),
                self@.map.dom() == m0.dom(),
                forall|id: Seq<char>| #[trigger]
                    originals@.contains_key(id) ==> m0.contains_key(id) && originals@[id] == m0[id],
                forall|id: Seq<char>|
                    m0.contains_key(id) && !(#[trigger] originals@.contains_key(id))
                        ==> self@.map[id] == m0[id],
            decreases pending.len() - i,
        {
            let ghost m_before = self@.map;
            let ghost o_before = originals@;
            proof {
                self.lemma_coherent();
            }
            let change = &pending[i];
            assert(change@ == cs[i as int]);
            self.apply_one_change(change, &mut originals);
            proof {
                lemma_apply_step_frame(m_before, o_before, cs[i as int]);
                assert(cs.take(i + 1 as int) =~= cs.take(i as int).push(cs[i as int]));
                lemma_apply_seq_snoc(
                    m0,
                    Map::<Seq<char>, WorkItemView>::empty(),
                    cs.take(i as int),
                    cs[i as int],
                );
                assert(apply_seq(m0, Map::<Seq<char>, WorkItemView>::empty(), cs.take(i + 1 as int))
                    == apply_step(m_before, o_before, cs[i as int]));
            }
            i += 1;
        }
        proof {
            assert(cs.take(pending.len() as int) =~= cs);
        }
        originals
    }

    /// Applies one pending change and records the touched snapshots.
    fn apply_one_change(&mut self, change: &Change, originals: &mut Originals)
        ensures
            final(self)@.order == old(self)@.order,
            (final(self)@.map, final(originals)@) == apply_step(
                old(self)@.map,
                old(originals)@,
                change@,
            ),
    {
        let ghost m = self@.map;
        let ghost o = originals@;
        let ghost cv = change@;
        proof {
            self.lemma_coherent();
        }
        if let ChangeData::AddToProject = &change.data {
            return ;
        }
        let target = match self.get(&change.work_item_id) {
            Some(t) => t.clone(),
            None => {
                return ;
            },
        };
        originals.record(&target);
        match &change.data {
            ChangeData::SetParent(new_parent_id) => {
                let ghost cid = cv.work_item_id;
                let ghost p = cv.data->SetParent_0;
                // Remember the prior and the new parent's snapshots before
                // any of the three edits below.
                let old_parent_id: Option<WorkItemId> = match &target.data {
                    WorkItemData::Issue(issue) => match &issue.parent_id {
                        Some(q) => Some(q.clone()),
                        None => None,
                    },
                    _ => None,
                };
                proof {
                    match &old_parent_id {
                        Some(q) => assert(old_parent_of(m, cid) == Some(q@)),
                        None => assert(old_parent_of(m, cid) is None),
                    }
                }
                if let Some(opid) = &old_parent_id {
                    if let Some(op) = self.get(opid) {
                        let op = op.clone();
                        originals.record(&op);
                    }
                }
                if let Some(np) = self.get(new_parent_id) {
                    let np = np.clone();
                    originals.record(&np);
                }
                proof {
                    assert(originals@ == apply_step(m, o, cv).1);
                }

                // First edit: the child leaves its prior parent's sub-issues.
                let ghost ma = match old_parent_of(m, cid) {
                    Some(opid) => if m.contains_key(opid) && m[opid].data is Issue {
                        m.insert(
                            opid,
                            WorkItemView {
                                data: WorkItemDataView::Issue(
                                    IssueView {
                                        sub_issues: without_id(
                                            m[opid].data->Issue_0.sub_issues,
                                            cid,
                                        ),
                                        ..m[opid].data->Issue_0
                                    },
                                ),
                                ..m[opid]
                            },
                        )
                    } else {
                        m
                    },
                    None => m,
                };
                if let Some(opid) = &old_parent_id {
                    if let Some(op) = self.get(opid) {
                        if let WorkItemData::Issue(_) = &op.data {
                            let mut op = op.clone();
                            if let WorkItemData::Issue(issue) = &mut op.data {
                                let filtered = remove_id(&issue.sub_issues, &change.work_item_id);
                                issue.sub_issues = filtered;
                            }
                            proof {
                                assert(op@ =~= ma[opid@]);
                            }
                            self.upsert(op);
                        }
                    }
                }
                proof {
                    assert(self@.map =~= ma);
                }

                // Second edit: the child's parent edge is set.
                let ghost mb = if ma.contains_key(cid) && ma[cid].data is Issue {
                    ma.insert(
                        cid,
                        WorkItemView {
                            data: WorkItemDataView::Issue(
                                IssueView { parent_id: Some(p), ..ma[cid].data->Issue_0 },
                            ),
                            ..ma[cid]
                        },
                    )
                } else {
                    ma
                };
                if let Some(child) = self.get(&change.work_item_id) {
                    if let WorkItemData::Issue(_) = &child.data {
                        let mut child = child.clone();
                        if let WorkItemData::Issue(issue) = &mut child.data {
                            issue.parent_id = Some(new_parent_id.clone());
                        }
                        proof {
                            assert(child@ =~= mb[cid]);
                        }
                        self.upsert(child);
                    }
                }
                proof {
                    assert(self@.map =~= mb);
                }

                // Third edit: the child joins the new parent's sub-issues.
                let ghost mc = if mb.contains_key(p) && mb[p].data is Issue {
                    mb.insert(
                        p,
                        WorkItemView {
                            data: WorkItemDataView::Issue(
                                IssueView {
                                    sub_issues: mb[p].data->Issue_0.sub_issues.push(cid),
                                    ..mb[p].data->Issue_0
                                },
                            ),
                            ..mb[p]
                        },
                    )
                } else {
                    mb
                };
                if let Some(np) = self.get(new_parent_id) {
                    if let WorkItemData::Issue(_) = &np.data {
                        let mut np = np.clone();
                        if let WorkItemData::Issue(issue) = &mut np.data {
                            issue.sub_issues.push(change.work_item_id.clone());
                        }
                        proof {
                            assert(np@ =~= mc[p]);
                        }
                        self.upsert(np);
                    }
                }
                proof {
                    assert(self@.map =~= mc);
                    assert(mc == set_parent_map(m, cid, p));
                    assert(self@.map == apply_step(m, o, cv).0);
                }
            },
            ChangeData::IssueType(value) => {
                let mut item = target;
                if let WorkItemData::Issue(issue) = &mut item.data {
                    issue.issue_type = DelayLoad::Loaded(match value {
                        Some(s) => Some(s.clone()),
                        None => None,
                    });
                }
                proof {
                    assert(item@ =~= apply_data_change(m[cv.work_item_id], cv.data));
                }
                self.upsert(item);
            },
            ChangeData::Status(value) => {
                let mut item = target;
                item.project_item.status = clone_opt_option_id(value);
                proof {
                    assert(item@ =~= apply_data_change(m[cv.work_item_id], cv.data));
                }
                self.upsert(item);
            },
            ChangeData::Blocked(value) => {
                let mut item = target;
                item.project_item.blocked = DelayLoad::Loaded(clone_opt_option_id(value));
                proof {
                    assert(item@ =~= apply_data_change(m[cv.work_item_id], cv.data));
                }
                self.upsert(item);
            },
            ChangeData::Epic(value) => {
                let mut item = target;
                item.project_item.epic = clone_opt_option_id(value);
                proof {
                    assert(item@ =~= apply_data_change(m[cv.work_item_id], cv.data));
                }
                self.upsert(item);
            },
            ChangeData::Iteration(value) => {
                let mut item = target;
                item.project_item.iteration = DelayLoad::Loaded(clone_opt_option_id(value));
                proof {
                    assert(item@ =~= apply_data_change(m[cv.work_item_id], cv.data));
                }
                self.upsert(item);
            },
            ChangeData::Kind(value) => {
                let mut item = target;
                item.project_item.kind = DelayLoad::Loaded(clone_opt_option_id(value));
                proof {
                    assert(item@ =~= apply_data_change(m[cv.work_item_id], cv.data));
                }
                self.upsert(item);
            },
            ChangeData::Workstream(value) => {
                let mut item = target;
                item.project_item.workstream = DelayLoad::Loaded(clone_opt_option_id(value));
                proof {
                    assert(item@ =~= apply_data_change(m[cv.work_item_id], cv.data));
                }
                self.upsert(item);
            },
            ChangeData::Estimate(value) => {
                let mut item = target;
                item.project_item.estimate = clone_opt_option_id(value);
                proof {
                    assert(item@ =~= apply_data_change(m[cv.work_item_id], cv.data));
                }
                self.upsert(item);
            },
            ChangeData::Priority(value) => {
                let mut item = target;
                item.project_item.priority = clone_opt_option_id(value);
                proof {
                    assert(item@ =~= apply_data_change(m[cv.work_item_id], cv.data));
                }
                self.upsert(item);
            },
            ChangeData::AddToProject => {
                proof {
                    assert(false);
                }
            },
        }
    }

    /// Writes the held snapshots back over the store, restoring every
    /// entity that `apply_changes` touched to its pre-change value.
    pub fn restore(&mut self, originals: &Originals)
        ensures
            final(self)@.order == old(self)@.order,
            final(self)@.map == old(self)@.map.union_prefer_right(originals@),
    {
        let items = originals.snapshots();
        let ghost vs = originals.item_views();
        let ghost m0 = self@.map;
        let mut i: usize = 0;
        proof {
            assert(m0.union_prefer_right(items_map(vs.take(0))) =~= m0);
        }
        while i < items.len()
            invariant
                i <= items.len(),
                items@.map_values(|w: WorkItem| w@) == vs,
                distinct_ids(vs),
                originals@ == items_map(vs),
                self@.order == old(self)@.order,
                self@.map == m0.union_prefer_right(items_map(vs.take(i as int))),
            decreases items.len() - i,
        {
            let item = items[i].clone();
            assert(item@ == vs[i as int]);
            self.upsert(item);
            proof {
                let t1 = vs.take(i as int);
                let t2 = vs.take(i + 1 as int);
                assert(t2.drop_last() =~= t1);
                assert(t2.last() == vs[i as int]);
                assert(m0.union_prefer_right(items_map(t2)) =~= m0.union_prefer_right(
                    items_map(t1),
                ).insert(vs[i as int].id, vs[i as int]));
            }
            i += 1;
        }
        proof {
            assert(vs.take(items.len() as int) =~= vs);
        }
    }
}

// ---------------------------------------------------------------------------
// The re-parenting law
// ---------------------------------------------------------------------------

/// Applying one re-parenting change removes the child from exactly its
/// prior parent's sub-issue list, appends it to the new parent's, sets
/// the child's parent edge, and records the pre-states of the child and
/// of both parents in the originals map.
pub proof fn lemma_set_parent_effects(m: Map<Seq<char>, WorkItemView>, c: ChangeView)
    requires
        id_coherent(m),
        c.data is SetParent,
        m.contains_key(c.work_item_id),
        m[c.work_item_id].data is Issue,
        m[c.work_item_id].data->Issue_0.parent_id is Some,
        m.contains_key(m[c.work_item_id].data->Issue_0.parent_id->0),
        m[m[c.work_item_id].data->Issue_0.parent_id->0].data is Issue,
        m.contains_key(c.data->SetParent_0),
        m[c.data->SetParent_0].data is Issue,
        c.work_item_id != m[c.work_item_id].data->Issue_0.parent_id->0,
        c.work_item_id != c.data->SetParent_0,
        c.data->SetParent_0 != m[c.work_item_id].data->Issue_0.parent_id->0,
    ensures
        ({
            let cid = c.work_item_id;
            let opid = m[cid].data->Issue_0.parent_id->0;
            let p = c.data->SetParent_0;
            let (m2, orig) = apply_step(m, Map::empty(), c);
            &&& orig.contains_key(cid) && orig[cid] == m[cid]
            &&& orig.contains_key(opid) && orig[opid] == m[opid]
            &&& orig.contains_key(p) && orig[p] == m[p]
            &&& m2[cid].data->Issue_0.parent_id == Some(p)
            &&& m2[opid].data->Issue_0.sub_issues == without_id(
                m[opid].data->Issue_0.sub_issues,
                cid,
            )
            &&& m2[p].data->Issue_0.sub_issues == m[p].data->Issue_0.sub_issues.push(cid)
        }),
{
    let cid = c.work_item_id;
    let opid = m[cid].data->Issue_0.parent_id->0;
    let p = c.data->SetParent_0;
    assert(m[cid].id == cid && m[opid].id == opid && m[p].id == p);
    assert(old_parent_of(m, cid) == Some(opid));
}

// ---------------------------------------------------------------------------
// The round-trip law
// ---------------------------------------------------------------------------

/// Applying a batch of changes and then writing the returned originals
/// back restores the pre-change store exactly: the originals hold the
/// pre-change value of every touched entity, every untouched entity kept
/// its value, and no entity was added or removed.
pub proof fn lemma_apply_round_trip(
    m0: Map<Seq<char>, WorkItemView>,
    mf: Map<Seq<char>, WorkItemView>,
    orig: Map<Seq<char>, WorkItemView>,
)
    requires
        mf.dom() == m0.dom(),
        forall|id: Seq<char>| #[trigger] orig.contains_key(id) ==> m0.contains_key(id) && orig[id] == m0[id],
        forall|id: Seq<char>|
            m0.contains_key(id) && !(#[trigger] orig.contains_key(id)) ==> mf[id] == m0[id],
    ensures
        mf.union_prefer_right(orig) == m0,
{
    assert(mf.union_prefer_right(orig) =~= m0);
}

} // verus!
